//! Renders records as troff manual-page text.

use crate::model::{FnParam, ParamView, StructureInfo, StructureType, StructureView, params_view};
use crate::text::{append_padded, lines, padded, split_lines, starts_with};
use vstd::prelude::*;

verus! {

broadcast use vstd::std_specs::vec::group_vec_axioms;

/// Longest type string that still counts when lining up a function's parameters; longer ones
/// (function pointers, mostly) would push every other column far to the right.
pub const MAX_PRINT_PARAM_LEN: usize = 80;

/// The strings in `ss`, one after the other.
pub open spec fn concat(ss: Seq<Seq<char>>) -> Seq<char>
    decreases ss.len(),
{
    if ss.len() == 0 {
        Seq::empty()
    } else {
        concat(ss.drop_last()) + ss.last()
    }
}

/// A type split into its base and the pointer token glued to the name: `**` or `(*` where
/// the type ends so, ` *` where it ends in a single `*`, and two spaces where it is no pointer.
pub open spec fn pointer_split(ty: Seq<char>) -> (Seq<char>, Seq<char>) {
    let n = ty.len() as int;
    if n > 0 && ty[n - 1] == '*' {
        if n > 1 && ty[n - 2] == '*' {
            (ty.subrange(0, n - 2), "**"@)
        } else if n > 1 && ty[n - 2] == '(' {
            (ty.subrange(0, n - 2), "(*"@)
        } else {
            (ty.subrange(0, n - 1), " *"@)
        }
    } else {
        (ty, "  "@)
    }
}

/// One line for a parameter or member: its base type padded to `width`, the pointer token,
/// the name in italics, then `delim`; the type is bold where `bold` holds.
pub open spec fn param_line(p: ParamView, width: nat, bold: bool, delim: Seq<char>) -> Seq<char> {
    let (base, ptr) = pointer_split(p.ty);
    if bold {
        "    \\fB"@ + padded(base, width) + ptr + "\\fP"@ + "\\fI"@ + p.name + "\\fP"@ + delim + "\n"@
    } else {
        "    "@ + padded(base, width) + ptr + "\\fI"@ + p.name + "\\fP"@ + delim + "\n"@
    }
}

/// A type that ends in `**` shows as its base with `**` glued to the name; one that ends in a
/// single `*` (not after `(`) as its base with ` *`; any other type, whole, with no pointer
/// token, only the two spaces that keep the column.
pub proof fn pointer_token(p: ParamView, width: nat, bold: bool, delim: Seq<char>)
    ensures
        ({
            let n = p.ty.len() as int;
            &&& n >= 2 && p.ty.subrange(n - 2, n) == "**"@ ==> pointer_split(p.ty) == (
                p.ty.subrange(0, n - 2),
                "**"@,
            )
            &&& n >= 1 && p.ty[n - 1] == '*' && (n == 1 || (p.ty[n - 2] != '*' && p.ty[n - 2]
                != '(')) ==> pointer_split(p.ty) == (p.ty.subrange(0, n - 1), " *"@)
            &&& (n == 0 || p.ty[n - 1] != '*') ==> pointer_split(p.ty) == (p.ty, "  "@)
        }),
        param_line(p, width, bold, delim) == (if bold {
            "    \\fB"@
        } else {
            "    "@
        }) + padded(pointer_split(p.ty).0, width) + pointer_split(p.ty).1 + (if bold {
            "\\fP"@
        } else {
            Seq::empty()
        }) + "\\fI"@ + p.name + "\\fP"@ + delim + "\n"@,
{
    reveal_strlit("**");
    let n = p.ty.len() as int;
    if n >= 2 && p.ty.subrange(n - 2, n) == "**"@ {
        assert(p.ty.subrange(n - 2, n)[0] == p.ty[n - 2]);
        assert(p.ty.subrange(n - 2, n)[1] == p.ty[n - 1]);
    }
    let (base, ptr) = pointer_split(p.ty);
    if bold {
        assert(param_line(p, width, bold, delim) =~= "    \\fB"@ + padded(base, width) + ptr
            + "\\fP"@ + "\\fI"@ + p.name + "\\fP"@ + delim + "\n"@);
    } else {
        assert(param_line(p, width, bold, delim) =~= "    "@ + padded(base, width) + ptr
            + Seq::<char>::empty() + "\\fI"@ + p.name + "\\fP"@ + delim + "\n"@);
    }
}

/// The delimiter after parameter `i` of `n`: `sep`, but none after the last.
pub open spec fn delim_at(i: int, n: int, sep: Seq<char>) -> Seq<char> {
    if i + 1 < n {
        sep
    } else {
        Seq::empty()
    }
}

/// One line for each parameter in order, delimited by `sep` but for the last.
pub open spec fn param_lines(ps: Seq<ParamView>, width: nat, bold: bool, sep: Seq<char>) -> Seq<
    Seq<char>,
> {
    Seq::new(ps.len(), |i: int| param_line(ps[i], width, bold, delim_at(i, ps.len() as int, sep)))
}

/// Appends the line for one parameter.
pub fn print_param(out: &mut String, pi: &FnParam, field_width: usize, bold: bool, delimiter: &str)
    ensures
        final(out)@ == old(out)@ + param_line(pi@, field_width as nat, bold, delimiter@),
{
    let cs = crate::text::chars_of(pi.par_type.as_str());
    let n = cs.len();
    let (base, ptr) = if n > 0 && cs[n - 1] == '*' {
        if n > 1 && cs[n - 2] == '*' {
            (crate::text::string_of(&cs, 0, n - 2), "**")
        } else if n > 1 && cs[n - 2] == '(' {
            (crate::text::string_of(&cs, 0, n - 2), "(*")
        } else {
            (crate::text::string_of(&cs, 0, n - 1), " *")
        }
    } else {
        (pi.par_type.clone(), "  ")
    };
    assert((base@, ptr@) == pointer_split(pi@.ty)) by {
        assert(cs@.subrange(0, n as int) =~= cs@);
    }
    if bold {
        out.append("    \\fB");
    } else {
        out.append("    ");
    }
    append_padded(out, base.as_str(), field_width);
    out.append(ptr);
    if bold {
        out.append("\\fP");
    }
    out.append("\\fI");
    out.append(pi.par_name.as_str());
    out.append("\\fP");
    out.append(delimiter);
    out.append("\n");
    assert(out@ =~= old(out)@ + param_line(pi@, field_width as nat, bold, delimiter@));
}

/// Appends the lines for all of `ps`, delimited by `sep` but for the last.
pub fn print_params(out: &mut String, ps: &Vec<FnParam>, field_width: usize, bold: bool, sep: &str)
    ensures
        final(out)@ == old(out)@ + concat(
            param_lines(params_view(ps@), field_width as nat, bold, sep@),
        ),
{
    let ghost start = out@;
    let ghost ls = param_lines(params_view(ps@), field_width as nat, bold, sep@);
    let mut i: usize = 0;
    while i < ps.len()
        invariant
            i <= ps.len(),
            ls == param_lines(params_view(ps@), field_width as nat, bold, sep@),
            out@ == start + concat(ls.subrange(0, i as int)),
        decreases ps.len() - i,
    {
        proof {
            assert(ls.subrange(0, i + 1).drop_last() =~= ls.subrange(0, i as int));
        }
        if i + 1 < ps.len() {
            print_param(out, &ps[i], field_width, bold, sep);
        } else {
            print_param(out, &ps[i], field_width, bold, "");
            proof {
                reveal_strlit("");
                assert(""@ =~= Seq::<char>::empty());
            }
        }
        assert(out@ =~= start + concat(ls.subrange(0, i + 1)));
        i = i + 1;
    }
    assert(ls.subrange(0, ps.len() as int) =~= ls);
}

/// The widest type among `ps` (by characters) whose width is below `limit`.
pub open spec fn max_type_len(ps: Seq<ParamView>, limit: nat) -> nat
    decreases ps.len(),
{
    if ps.len() == 0 {
        0
    } else {
        let m = max_type_len(ps.drop_last(), limit);
        let w = ps.last().ty.len();
        if w < limit && w > m {
            w
        } else {
            m
        }
    }
}

/// The widest type among `ps` whose width is below `limit`.
pub fn type_width(ps: &Vec<FnParam>, limit: usize) -> (r: usize)
    ensures
        r == max_type_len(params_view(ps@), limit as nat),
{
    let mut m: usize = 0;
    let mut i: usize = 0;
    while i < ps.len()
        invariant
            i <= ps.len(),
            m == max_type_len(params_view(ps@).subrange(0, i as int), limit as nat),
            m < limit || m == 0,
        decreases ps.len() - i,
    {
        proof {
            assert(params_view(ps@).subrange(0, i + 1).drop_last() =~= params_view(ps@).subrange(0, i as int));
        }
        let w = ps[i].par_type.as_str().unicode_len();
        if w < limit && w > m {
            m = w;
        }
        i = i + 1;
    }
    assert(params_view(ps@).subrange(0, ps.len() as int) =~= params_view(ps@));
    m
}

/// The word that opens a structure's declaration.
pub open spec fn kind_word(k: StructureType) -> Seq<char> {
    match k {
        StructureType::StrEnum => "enum"@,
        StructureType::StrStruct => "struct"@,
        StructureType::StrUnknown => "???"@,
    }
}

/// A structure as shown on a page: its descriptions, then its declaration with one aligned
/// line per member.
pub open spec fn structure_block(s: StructureView) -> Seq<char> {
    line_if_any(s.brief) + line_if_any(s.description) + structure_head(s) + concat(
        param_lines(s.members, max_type_len(s.members, usize::MAX as nat), false, ";"@),
    ) + "};\\fP\n.PP\n.fi\n"@
}

/// `s` and a line break, or nothing where `s` is empty.
pub open spec fn line_if_any(s: Seq<char>) -> Seq<char> {
    if s.len() > 0 {
        s + "\n"@
    } else {
        Seq::empty()
    }
}

fn print_line_if_any(out: &mut String, s: &str)
    ensures
        final(out)@ == old(out)@ + line_if_any(s@),
{
    if s.unicode_len() > 0 {
        out.append(s);
        out.append("\n");
        assert(out@ =~= old(out)@ + line_if_any(s@));
    } else {
        assert(out@ =~= old(out)@ + line_if_any(s@));
    }
}

/// The line that opens a structure's declaration.
pub open spec fn structure_head(s: StructureView) -> Seq<char> {
    "\n.nf\n\\fB\n"@ + kind_word(s.kind) + " "@ + s.name + " {\n"@
}

fn print_structure_head(out: &mut String, si: &StructureInfo)
    ensures
        final(out)@ == old(out)@ + structure_head(si@),
{
    out.append("\n.nf\n\\fB\n");
    match si.str_type {
        StructureType::StrEnum => out.append("enum"),
        StructureType::StrStruct => out.append("struct"),
        StructureType::StrUnknown => out.append("???"),
    }
    out.append(" ");
    out.append(si.str_name.as_str());
    out.append(" {\n");
    assert(out@ =~= old(out)@ + structure_head(si@));
}

/// Appends a structure as shown on a page.
pub fn print_structure(out: &mut String, si: &StructureInfo)
    ensures
        final(out)@ == old(out)@ + structure_block(si@),
{
    let ghost start = out@;
    print_line_if_any(out, si.str_brief.as_str());
    let ghost a = out@;
    print_line_if_any(out, si.str_description.as_str());
    let ghost b = out@;
    let width = type_width(&si.str_members, usize::MAX);
    print_structure_head(out, si);
    let ghost c = out@;
    print_params(out, &si.str_members, width, false, ";");
    let ghost d = out@;
    out.append("};\\fP\n.PP\n.fi\n");
    proof {
        let v = si@;
        let p4 = concat(param_lines(v.members, max_type_len(v.members, usize::MAX as nat), false, ";"@));
        assert(out@ =~= start + line_if_any(v.brief) + line_if_any(v.description) + structure_head(v) + p4 + "};\\fP\n.PP\n.fi\n"@);
    }
}

/// Whether a line opens a no-fill block.
pub open spec fn opens_nf(l: Seq<char>) -> bool {
    l.len() >= 3 && l.subrange(0, 3) == ".nf"@
}

/// Whether a line closes a no-fill block.
pub open spec fn closes_nf(l: Seq<char>) -> bool {
    l.len() >= 3 && l.subrange(0, 3) == ".fi"@
}

/// One line of long text as shown: a blank line before a block opens, the line, a paragraph
/// break unless inside a block, and a blank line after a block closes.
pub open spec fn long_piece(l: Seq<char>, in_nf: bool) -> Seq<char> {
    let nf = in_nf || opens_nf(l);
    (if opens_nf(l) {
        "\n"@
    } else {
        Seq::empty()
    }) + l + "\n"@ + (if nf {
        Seq::empty()
    } else {
        ".PP\n"@
    }) + (if closes_nf(l) {
        "\n"@
    } else {
        Seq::empty()
    })
}

/// Whether the lines after `l` are inside a block.
pub open spec fn long_next(l: Seq<char>, in_nf: bool) -> bool {
    if closes_nf(l) {
        false
    } else {
        in_nf || opens_nf(l)
    }
}

/// Long text as shown on a page, from line `ls[0]` on: each line is followed by a paragraph
/// break, but inside a `.nf` / `.fi` block, which is set off by blank lines and kept as it is.
pub open spec fn long_lines(ls: Seq<Seq<char>>, in_nf: bool) -> Seq<char>
    decreases ls.len(),
{
    if ls.len() == 0 {
        Seq::empty()
    } else {
        long_piece(ls[0], in_nf) + long_lines(ls.drop_first(), long_next(ls[0], in_nf))
    }
}

/// The text `s` as shown on a page, line by line.
pub open spec fn long_text(s: Seq<char>) -> Seq<char> {
    long_lines(lines(s), false)
}

fn print_long_line(out: &mut String, l: &str, in_nf: bool) -> (r: bool)
    ensures
        final(out)@ == old(out)@ + long_piece(l@, in_nf),
        r == long_next(l@, in_nf),
{
    proof {
        reveal_strlit(".nf");
        reveal_strlit(".fi");
    }
    let opens = starts_with(l, ".nf");
    let closes = starts_with(l, ".fi");
    let mut nf = in_nf;
    if opens {
        out.append("\n");
        nf = true;
    }
    out.append(l);
    out.append("\n");
    if !nf {
        out.append(".PP\n");
    }
    if closes {
        out.append("\n");
        nf = false;
    }
    assert(out@ =~= old(out)@ + long_piece(l@, in_nf));
    nf
}

/// Appends the long text `s`, line by line.
pub fn print_long_string(out: &mut String, s: &str)
    ensures
        final(out)@ == old(out)@ + long_text(s@),
{
    let ls = split_lines(s);
    let ghost lv = ls@.map_values(|l: String| l@);
    let ghost start = out@;
    let mut in_nf = false;
    let mut i: usize = 0;
    assert(lv.subrange(0, lv.len() as int) =~= lv);
    while i < ls.len()
        invariant
            i <= ls.len(),
            lv == ls@.map_values(|l: String| l@),
            lv == lines(s@),
            out@ + long_lines(lv.subrange(i as int, lv.len() as int), in_nf) == start + long_text(s@),
        decreases ls.len() - i,
    {
        let ghost rest = lv.subrange(i as int, lv.len() as int);
        let ghost before = out@;
        let ghost was = in_nf;
        in_nf = print_long_line(out, ls[i].as_str(), in_nf);
        proof {
            assert(rest[0] == ls@[i as int]@);
            assert(rest.drop_first() =~= lv.subrange(i + 1, lv.len() as int));
            assert(long_lines(rest, was) == long_piece(rest[0], was) + long_lines(rest.drop_first(), in_nf));
        }
        i = i + 1;
    }
    assert(lv.subrange(ls.len() as int, lv.len() as int) =~= Seq::<Seq<char>>::empty());
    assert(out@ =~= start + long_text(s@));
}

} // verus!
