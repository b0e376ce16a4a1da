//! Lays out one manual page for a function record.

use crate::builders::pairs_view;
use crate::index::{functions_view, resolved, StructureIndex};
use crate::model::{
    defines_view, params_view, retvals_view, strings_view, DefineView, FnParam, FunctionInfo,
    FunctionView, HashDefine, ParamView,
};
use crate::render::{
    concat, delim_at, long_text, max_type_len, param_lines, print_long_string, print_params,
    print_structure, structure_block, type_width, MAX_PRINT_PARAM_LEN,
};
use crate::text::{append_decimal, append_padded, decimal, padded, str_eq, to_upper, upper};
use vstd::prelude::*;

verus! {

broadcast use vstd::std_specs::vec::group_vec_axioms;

/// How pages are labelled and which optional parts they carry.
pub struct PageOptions {
    /// The manual section, as in `name(3)`.
    pub man_section: u32,
    pub package_name: String,
    /// The centre header of each page.
    pub header: String,
    /// Put before the header's name in the `#include` line (`qb/`, say).
    pub header_prefix: String,
    /// Whether to show a PARAMS section.
    pub print_params: bool,
    /// Whether to write the page for the header itself.
    pub print_general: bool,
}

/// A section with its title and body.
pub open spec fn section_text(s: (Seq<char>, Seq<char>)) -> Seq<char> {
    ".SH "@ + s.0 + "\n"@ + s.1
}

/// The sections one after the other.
pub open spec fn sections_text(ss: Seq<(Seq<char>, Seq<char>)>) -> Seq<char>
    decreases ss.len(),
{
    if ss.len() == 0 {
        Seq::empty()
    } else {
        sections_text(ss.drop_last()) + section_text(ss.last())
    }
}

/// A section that is there only where `shown` holds.
pub open spec fn optional(shown: bool, title: Seq<char>, body: Seq<char>) -> Seq<
    (Seq<char>, Seq<char>),
> {
    if shown {
        seq![(title, body)]
    } else {
        Seq::empty()
    }
}

/// The two lines that open every page.
pub open spec fn preamble(o: PageOptions, date: Seq<char>, f: FunctionView) -> Seq<char> {
    ".\\\"  Automatically generated man page, do not edit\n"@ + ".TH "@ + upper(f.name) + " "@
        + decimal(o.man_section as nat) + " "@ + date + " \""@ + o.package_name@ + "\" \""@
        + o.header@ + "\"\n"@
}

/// The NAME section: the name, and the brief description after a dash where there is one.
pub open spec fn name_body(f: FunctionView) -> Seq<char> {
    f.name + (if f.brief.len() > 0 {
        " \\- "@ + f.brief
    } else {
        Seq::empty()
    }) + "\n"@
}

/// The parameters' types are aligned on the widest one under the cutoff.
pub open spec fn synopsis_body(o: PageOptions, headerfile: Seq<char>, f: FunctionView) -> Seq<char> {
    ".nf\n.B #include <"@ + o.header_prefix@ + headerfile + ">\n"@ + (if f.def.len() > 0 {
        ".sp\n\\fB"@ + f.def + "\\fP(\n"@ + concat(
            param_lines(f.args, max_type_len(f.args, MAX_PRINT_PARAM_LEN as nat), true, ","@),
        ) + ");\n.fi\n"@
    } else {
        Seq::empty()
    })
}

/// Whether some parameter has both a type and a description.
pub open spec fn has_param_descs(args: Seq<ParamView>) -> bool {
    exists|i: int| 0 <= i < args.len() && args[i].desc.len() > 0 && #[trigger] args[i].ty.len() > 0
}

/// The longest parameter name, in characters.
pub open spec fn max_name_len(args: Seq<ParamView>) -> nat
    decreases args.len(),
{
    if args.len() == 0 {
        0
    } else {
        let m = max_name_len(args.drop_last());
        if args.last().name.len() > m {
            args.last().name.len()
        } else {
            m
        }
    }
}

/// The PARAMS section: each name, padded, then its description.
pub open spec fn params_body(args: Seq<ParamView>) -> Seq<char> {
    concat(
        Seq::new(
            args.len(),
            |i: int|
                "\\fB"@ + padded(args[i].name, max_name_len(args)) + " \\fP\\fI"@ + args[i].desc
                    + "\\fP\n.PP\n"@,
        ),
    )
}

/// Whether some reference id has a resolved structure.
pub open spec fn has_structures(refids: Seq<Seq<char>>, idx: Seq<(Seq<char>, crate::index::EntryView)>) -> bool {
    exists|i: int| 0 <= i < refids.len() && #[trigger] resolved(idx, refids[i]) is Some
}

/// The structures that `refids` name, in that order; those not resolved are left out.
pub open spec fn structures_body(refids: Seq<Seq<char>>, idx: Seq<(Seq<char>, crate::index::EntryView)>) -> Seq<char> {
    concat(
        Seq::new(
            refids.len(),
            |i: int|
                match resolved(idx, refids[i]) {
                    Some(s) => structure_block(s),
                    None => Seq::empty(),
                },
        ),
    )
}

/// The RETURN VALUES section: the narrative, then one line per structured value.
pub open spec fn retvals_body(f: FunctionView) -> Seq<char> {
    f.returnval + "\n.br\n"@ + concat(
        Seq::new(
            f.retvals.len(),
            |i: int| f.retvals[i].name + " "@ + f.retvals[i].desc + "\n.br\n"@,
        ),
    ) + ".PP\n"@
}

/// A define as listed on the header's page: only names equal to their own upper case form.
pub open spec fn define_block(d: DefineView) -> Seq<char> {
    if upper(d.name) == d.name {
        (if d.brief.len() > 0 {
            ".PP\n"@ + d.brief + "\n.br\n"@
        } else {
            Seq::empty()
        }) + (if d.desc.len() > 0 {
            ".br\n"@ + d.desc + "\n.br\n"@
        } else {
            Seq::empty()
        }) + "#define "@ + d.name + " "@ + d.init + "\n.br\n"@
    } else {
        Seq::empty()
    }
}

/// The DEFINES section: each define that is shown, in order.
pub open spec fn defines_body(ds: Seq<DefineView>) -> Seq<char> {
    concat(Seq::new(ds.len(), |i: int| define_block(ds[i])))
}

/// The names of the records in `fs` other than `me`, in order.
pub open spec fn other_names(fs: Seq<FunctionView>, me: Seq<char>) -> Seq<Seq<char>>
    decreases fs.len(),
{
    if fs.len() == 0 {
        Seq::empty()
    } else {
        let o = other_names(fs.drop_last(), me);
        if fs.last().name != me {
            o.push(fs.last().name)
        } else {
            o
        }
    }
}

/// One reference per line, each tagged with the section, separated by commas.
pub open spec fn see_also_lines(names: Seq<Seq<char>>, section: nat) -> Seq<Seq<char>> {
    Seq::new(
        names.len(),
        |k: int|
            "\\fI"@ + names[k] + "\\fR("@ + decimal(section) + ")"@ + delim_at(
                k,
                names.len() as int,
                ", "@,
            ) + "\n"@,
    )
}

/// The SEE ALSO section.
pub open spec fn see_also_body(o: PageOptions, f: FunctionView, fs: Seq<FunctionView>) -> Seq<char> {
    ".PP\n.nh\n.ad l\n"@ + concat(see_also_lines(other_names(fs, f.name), o.man_section as nat))
}

/// The sections of the page for `f`, in their fixed order.
pub open spec fn page_sections(
    o: PageOptions,
    headerfile: Seq<char>,
    f: FunctionView,
    fs: Seq<FunctionView>,
    idx: Seq<(Seq<char>, crate::index::EntryView)>,
    copyright: Seq<char>,
) -> Seq<(Seq<char>, Seq<char>)> {
    seq![("NAME"@, name_body(f)), ("SYNOPSIS"@, synopsis_body(o, headerfile, f))]
        + optional(o.print_params && has_param_descs(f.args), "PARAMS"@, params_body(f.args))
        + optional(f.detail.len() > 0, "DESCRIPTION"@, long_text(f.detail))
        + optional(has_structures(f.refids, idx), "STRUCTURES"@, structures_body(f.refids, idx))
        + optional(f.returnval.len() > 0, "RETURN VALUES"@, retvals_body(f))
        + optional(f.defines.len() > 0, "DEFINES"@, defines_body(f.defines))
        + optional(f.note.len() > 0, "NOTE"@, long_text(f.note))
        + seq![("SEE ALSO"@, see_also_body(o, f, fs))] + optional(copyright.len() > 0, "COPYRIGHT"@, copyright + "\n"@)
}

/// The whole page for `f`.
pub open spec fn man_page(
    o: PageOptions,
    headerfile: Seq<char>,
    date: Seq<char>,
    f: FunctionView,
    fs: Seq<FunctionView>,
    idx: Seq<(Seq<char>, crate::index::EntryView)>,
    copyright: Seq<char>,
) -> Seq<char> {
    preamble(o, date, f) + sections_text(page_sections(o, headerfile, f, fs, idx, copyright))
}

/// The synopsis of a function with a definition lists its `N` parameters, one line each, in
/// order: line `i` shows parameter `i` with its type aligned, and ends in a comma but for the
/// last.
pub proof fn synopsis_lists_parameters(o: PageOptions, headerfile: Seq<char>, f: FunctionView)
    requires
        f.def.len() > 0,
    ensures
        ({
            let w = max_type_len(f.args, MAX_PRINT_PARAM_LEN as nat);
            let ls = param_lines(f.args, w, true, ","@);
            &&& synopsis_body(o, headerfile, f) == ".nf\n.B #include <"@ + o.header_prefix@
                + headerfile + ">\n"@ + ".sp\n\\fB"@ + f.def + "\\fP(\n"@ + concat(ls)
                + ");\n.fi\n"@
            &&& ls.len() == f.args.len()
            &&& forall|i: int|
                0 <= i < ls.len() ==> #[trigger] ls[i] == crate::render::param_line(
                    f.args[i],
                    w,
                    true,
                    if i + 1 < f.args.len() {
                        ","@
                    } else {
                        Seq::empty()
                    },
                )
        }),
{
}

/// The titles of the sections in `ss` that are `t`, counted.
pub open spec fn count_titled(ss: Seq<(Seq<char>, Seq<char>)>, t: Seq<char>) -> nat
    decreases ss.len(),
{
    if ss.len() == 0 {
        0
    } else {
        count_titled(ss.drop_last(), t) + if ss.last().0 == t {
            1nat
        } else {
            0nat
        }
    }
}

proof fn lemma_count_titled_concat(a: Seq<(Seq<char>, Seq<char>)>, b: Seq<(Seq<char>, Seq<char>)>, t: Seq<char>)
    ensures
        count_titled(a + b, t) == count_titled(a, t) + count_titled(b, t),
    decreases b.len(),
{
    if b.len() == 0 {
        assert(a + b =~= a);
    } else {
        assert((a + b).drop_last() =~= a + b.drop_last());
        lemma_count_titled_concat(a, b.drop_last(), t);
    }
}

proof fn lemma_count_single(x: (Seq<char>, Seq<char>), t: Seq<char>)
    ensures
        count_titled(seq![x], t) == if x.0 == t {
            1nat
        } else {
            0nat
        },
{
    let e = Seq::<(Seq<char>, Seq<char>)>::empty();
    assert(seq![x].drop_last() =~= e);
    assert(count_titled(e, t) == 0);
    assert(seq![x].last() == x);
}

proof fn lemma_count_optional(shown: bool, title: Seq<char>, body: Seq<char>, t: Seq<char>)
    ensures
        count_titled(optional(shown, title, body), t) == if shown && title == t {
            1nat
        } else {
            0nat
        },
{
    if shown {
        lemma_count_single((title, body), t);
    } else {
        assert(count_titled(Seq::<(Seq<char>, Seq<char>)>::empty(), t) == 0);
    }
}

/// A page has a DESCRIPTION section exactly when the detailed description is not empty, and
/// then only one.
pub proof fn description_section_once(
    o: PageOptions,
    headerfile: Seq<char>,
    f: FunctionView,
    fs: Seq<FunctionView>,
    idx: Seq<(Seq<char>, crate::index::EntryView)>,
    copyright: Seq<char>,
)
    ensures
        count_titled(page_sections(o, headerfile, f, fs, idx, copyright), "DESCRIPTION"@) == if f.detail.len()
            == 0 {
            0nat
        } else {
            1nat
        },
{
    reveal_strlit("NAME");
    reveal_strlit("SYNOPSIS");
    reveal_strlit("PARAMS");
    reveal_strlit("DESCRIPTION");
    reveal_strlit("STRUCTURES");
    reveal_strlit("RETURN VALUES");
    reveal_strlit("DEFINES");
    reveal_strlit("NOTE");
    reveal_strlit("SEE ALSO");
    reveal_strlit("COPYRIGHT");
    let t = "DESCRIPTION"@;
    let s0 = seq![("NAME"@, name_body(f)), ("SYNOPSIS"@, synopsis_body(o, headerfile, f))];
    let o1 = optional(o.print_params && has_param_descs(f.args), "PARAMS"@, params_body(f.args));
    let o2 = optional(f.detail.len() > 0, "DESCRIPTION"@, long_text(f.detail));
    let o3 = optional(has_structures(f.refids, idx), "STRUCTURES"@, structures_body(f.refids, idx));
    let o4 = optional(f.returnval.len() > 0, "RETURN VALUES"@, retvals_body(f));
    let o5 = optional(f.defines.len() > 0, "DEFINES"@, defines_body(f.defines));
    let o6 = optional(f.note.len() > 0, "NOTE"@, long_text(f.note));
    let s7 = seq![("SEE ALSO"@, see_also_body(o, f, fs))];
    let o8 = optional(copyright.len() > 0, "COPYRIGHT"@, copyright + "\n"@);
    assert(s0 =~= seq![("NAME"@, name_body(f))] + seq![("SYNOPSIS"@, synopsis_body(o, headerfile, f))]);
    lemma_count_titled_concat(seq![("NAME"@, name_body(f))], seq![("SYNOPSIS"@, synopsis_body(o, headerfile, f))], t);
    lemma_count_single(("NAME"@, name_body(f)), t);
    lemma_count_single(("SYNOPSIS"@, synopsis_body(o, headerfile, f)), t);
    lemma_count_single(("SEE ALSO"@, see_also_body(o, f, fs)), t);
    lemma_count_optional(o.print_params && has_param_descs(f.args), "PARAMS"@, params_body(f.args), t);
    lemma_count_optional(f.detail.len() > 0, "DESCRIPTION"@, long_text(f.detail), t);
    lemma_count_optional(has_structures(f.refids, idx), "STRUCTURES"@, structures_body(f.refids, idx), t);
    lemma_count_optional(f.returnval.len() > 0, "RETURN VALUES"@, retvals_body(f), t);
    lemma_count_optional(f.defines.len() > 0, "DEFINES"@, defines_body(f.defines), t);
    lemma_count_optional(f.note.len() > 0, "NOTE"@, long_text(f.note), t);
    lemma_count_optional(copyright.len() > 0, "COPYRIGHT"@, copyright + "\n"@, t);
    assert(t.len() == 11);
    assert("NAME"@.len() == 4);
    assert("SYNOPSIS"@.len() == 8);
    assert("PARAMS"@.len() == 6);
    assert("STRUCTURES"@.len() == 10);
    assert("RETURN VALUES"@.len() == 13);
    assert("DEFINES"@.len() == 7);
    assert("NOTE"@.len() == 4);
    assert("SEE ALSO"@.len() == 8);
    assert("COPYRIGHT"@.len() == 9);
    lemma_count_titled_concat(s0, o1, t);
    lemma_count_titled_concat(s0 + o1, o2, t);
    lemma_count_titled_concat(s0 + o1 + o2, o3, t);
    lemma_count_titled_concat(s0 + o1 + o2 + o3, o4, t);
    lemma_count_titled_concat(s0 + o1 + o2 + o3 + o4, o5, t);
    lemma_count_titled_concat(s0 + o1 + o2 + o3 + o4 + o5, o6, t);
    lemma_count_titled_concat(s0 + o1 + o2 + o3 + o4 + o5 + o6, s7, t);
    lemma_count_titled_concat(s0 + o1 + o2 + o3 + o4 + o5 + o6 + s7, o8, t);
    assert(count_titled(Seq::empty(), t) == 0);
}

proof fn lemma_other_names(fs: Seq<FunctionView>, me: Seq<char>)
    ensures
        !other_names(fs, me).contains(me),
        forall|i: int|
            0 <= i < fs.len() && fs[i].name != me ==> other_names(fs, me).contains(
                #[trigger] fs[i].name,
            ),
        forall|k: int|
            0 <= k < other_names(fs, me).len() ==> exists|i: int|
                0 <= i < fs.len() && #[trigger] fs[i].name == #[trigger] other_names(fs, me)[k],
    decreases fs.len(),
{
    if fs.len() > 0 {
        let d = fs.drop_last();
        lemma_other_names(d, me);
        let o = other_names(d, me);
        let r = other_names(fs, me);
        assert forall|i: int| 0 <= i < fs.len() && fs[i].name != me implies r.contains(
            #[trigger] fs[i].name,
        ) by {
            if i < fs.len() - 1 {
                assert(d[i] == fs[i]);
                assert(o.contains(d[i].name));
                let k = choose|k: int| 0 <= k < o.len() && o[k] == d[i].name;
                assert(r[k] == fs[i].name);
            } else {
                assert(r[r.len() - 1] == fs[i].name);
            }
        }
        assert forall|k: int| 0 <= k < r.len() implies exists|i: int|
            0 <= i < fs.len() && #[trigger] fs[i].name == #[trigger] r[k] by {
            if k < o.len() {
                assert(r[k] == o[k]);
                let i = choose|i: int| 0 <= i < d.len() && #[trigger] d[i].name == #[trigger] o[k];
                assert(fs[i] == d[i]);
            } else {
                assert(fs[fs.len() - 1].name == r[k]);
            }
        }
        if r.contains(me) {
            let k = choose|k: int| 0 <= k < r.len() && r[k] == me;
            if k < o.len() {
                assert(o[k] == me);
            }
        }
    }
}

/// SEE ALSO lists the other records of the input, one per line in their order, leaving out
/// the page's own: each tagged with the section, and each but the last followed by a comma.
pub proof fn see_also_lists_others(o: PageOptions, f: FunctionView, fs: Seq<FunctionView>)
    ensures
        ({
            let names = other_names(fs, f.name);
            let ls = see_also_lines(names, o.man_section as nat);
            &&& see_also_body(o, f, fs) == ".PP\n.nh\n.ad l\n"@ + concat(ls)
            &&& ls.len() == names.len()
            &&& forall|k: int|
                0 <= k < ls.len() ==> #[trigger] ls[k] == "\\fI"@ + names[k] + "\\fR("@ + decimal(
                    o.man_section as nat,
                ) + ")"@ + (if k + 1 < ls.len() {
                    ", "@
                } else {
                    Seq::empty()
                }) + "\n"@
            &&& !names.contains(f.name)
            &&& forall|i: int|
                0 <= i < fs.len() && fs[i].name != f.name ==> names.contains(#[trigger] fs[i].name)
            &&& forall|k: int|
                0 <= k < names.len() ==> exists|i: int|
                    0 <= i < fs.len() && #[trigger] fs[i].name == #[trigger] names[k]
        }),
{
    lemma_other_names(fs, f.name);
}

/// Whether `f` gets a page: the record for the header itself only when asked for.
pub open spec fn has_page(o: PageOptions, headerfile: Seq<char>, f: FunctionView) -> bool {
    !(f.name == headerfile && !o.print_general)
}

fn name_body_exec(f: &FunctionInfo) -> (r: String)
    ensures
        r@ == name_body(f@),
{
    let mut r = f.fn_name.clone();
    if f.fn_brief.as_str().unicode_len() > 0 {
        r.append(" \\- ");
        r.append(f.fn_brief.as_str());
    }
    r.append("\n");
    assert(r@ =~= name_body(f@));
    r
}

fn synopsis_body_exec(o: &PageOptions, headerfile: &str, f: &FunctionInfo) -> (r: String)
    ensures
        r@ == synopsis_body(*o, headerfile@, f@),
{
    let mut r = String::from_str(".nf\n.B #include <");
    r.append(o.header_prefix.as_str());
    r.append(headerfile);
    r.append(">\n");
    let ghost head = r@;
    if f.fn_def.as_str().unicode_len() > 0 {
        r.append(".sp\n\\fB");
        r.append(f.fn_def.as_str());
        r.append("\\fP(\n");
        let width = type_width(&f.fn_args, MAX_PRINT_PARAM_LEN);
        print_params(&mut r, &f.fn_args, width, true, ",");
        r.append(");\n.fi\n");
    }
    assert(r@ =~= synopsis_body(*o, headerfile@, f@));
    r
}

fn has_param_descs_exec(args: &Vec<FnParam>) -> (r: bool)
    ensures
        r == has_param_descs(params_view(args@)),
{
    let mut i: usize = 0;
    while i < args.len()
        invariant
            i <= args.len(),
            forall|j: int| 0 <= j < i ==> !(args@[j].par_desc@.len() > 0 && #[trigger] args@[j].par_type@.len() > 0),
        decreases args.len() - i,
    {
        if args[i].par_desc.as_str().unicode_len() > 0 && args[i].par_type.as_str().unicode_len() > 0 {
            assert(params_view(args@)[i as int].ty.len() > 0);
            return true;
        }
        i = i + 1;
    }
    assert forall|j: int| 0 <= j < args.len() implies !(params_view(args@)[j].desc.len() > 0 && #[trigger] params_view(args@)[j].ty.len() > 0) by {
        assert(args@[j].par_type@.len() > 0 ==> args@[j].par_type@.len() > 0);
    }
    false
}

fn name_width(args: &Vec<FnParam>) -> (r: usize)
    ensures
        r == max_name_len(params_view(args@)),
{
    let mut m: usize = 0;
    let mut i: usize = 0;
    while i < args.len()
        invariant
            i <= args.len(),
            m == max_name_len(params_view(args@).subrange(0, i as int)),
        decreases args.len() - i,
    {
        proof {
            assert(params_view(args@).subrange(0, i + 1).drop_last() =~= params_view(args@).subrange(0, i as int));
        }
        let w = args[i].par_name.as_str().unicode_len();
        if w > m {
            m = w;
        }
        i = i + 1;
    }
    assert(params_view(args@).subrange(0, args.len() as int) =~= params_view(args@));
    m
}

fn params_body_exec(args: &Vec<FnParam>) -> (r: String)
    ensures
        r@ == params_body(params_view(args@)),
{
    let ghost av = params_view(args@);
    let width = name_width(args);
    let ghost ls = Seq::new(
        av.len(),
        |i: int|
            "\\fB"@ + padded(av[i].name, max_name_len(av)) + " \\fP\\fI"@ + av[i].desc
                + "\\fP\n.PP\n"@,
    );
    let mut r = String::new();
    let mut i: usize = 0;
    while i < args.len()
        invariant
            i <= args.len(),
            av == params_view(args@),
            width == max_name_len(av),
            ls.len() == av.len(),
            forall|j: int| 0 <= j < ls.len() ==> #[trigger] ls[j] == "\\fB"@ + padded(av[j].name, max_name_len(av)) + " \\fP\\fI"@ + av[j].desc + "\\fP\n.PP\n"@,
            r@ == concat(ls.subrange(0, i as int)),
        decreases args.len() - i,
    {
        proof {
            assert(ls.subrange(0, i + 1).drop_last() =~= ls.subrange(0, i as int));
        }
        let ghost before = r@;
        r.append("\\fB");
        append_padded(&mut r, args[i].par_name.as_str(), width);
        r.append(" \\fP\\fI");
        r.append(args[i].par_desc.as_str());
        r.append("\\fP\n.PP\n");
        assert(r@ =~= before + ls[i as int]);
        i = i + 1;
    }
    assert(ls.subrange(0, args.len() as int) =~= ls);
    r
}

fn structures_body_exec(refids: &Vec<String>, idx: &StructureIndex) -> (r: (String, bool))
    ensures
        r.0@ == structures_body(strings_view(refids@), idx@),
        r.1 == has_structures(strings_view(refids@), idx@),
{
    let ghost rv = strings_view(refids@);
    let ghost ls = Seq::new(
        rv.len(),
        |i: int|
            match resolved(idx@, rv[i]) {
                Some(s) => structure_block(s),
                None => Seq::<char>::empty(),
            },
    );
    let mut r = String::new();
    let mut any = false;
    let mut i: usize = 0;
    while i < refids.len()
        invariant
            i <= refids.len(),
            rv == strings_view(refids@),
            ls.len() == rv.len(),
            forall|j: int| 0 <= j < ls.len() ==> #[trigger] ls[j] == match resolved(idx@, rv[j]) {
                Some(s) => structure_block(s),
                None => Seq::<char>::empty(),
            },
            r@ == concat(ls.subrange(0, i as int)),
            any == exists|j: int| 0 <= j < i && #[trigger] resolved(idx@, rv[j]) is Some,
        decreases refids.len() - i,
    {
        proof {
            assert(ls.subrange(0, i + 1).drop_last() =~= ls.subrange(0, i as int));
        }
        let ghost before = r@;
        match idx.resolved(refids[i].as_str()) {
            Some(s) => {
                print_structure(&mut r, s);
                any = true;
            },
            None => {
                assert(r@ =~= before + ls[i as int]);
            },
        }
        i = i + 1;
    }
    assert(ls.subrange(0, refids.len() as int) =~= ls);
    (r, any)
}

fn retvals_body_exec(f: &FunctionInfo) -> (r: String)
    ensures
        r@ == retvals_body(f@),
{
    let ghost rv = retvals_view(f.fn_retvals@);
    let ghost ls = Seq::new(rv.len(), |i: int| rv[i].name + " "@ + rv[i].desc + "\n.br\n"@);
    let mut r = f.fn_returnval.clone();
    r.append("\n.br\n");
    let ghost head = r@;
    let mut i: usize = 0;
    assert(ls.subrange(0, 0) =~= Seq::<Seq<char>>::empty());
    assert(head =~= head + concat(ls.subrange(0, 0)));
    while i < f.fn_retvals.len()
        invariant
            i <= f.fn_retvals.len(),
            rv == retvals_view(f.fn_retvals@),
            ls.len() == rv.len(),
            forall|j: int| 0 <= j < ls.len() ==> #[trigger] ls[j] == rv[j].name + " "@ + rv[j].desc + "\n.br\n"@,
            r@ == head + concat(ls.subrange(0, i as int)),
        decreases f.fn_retvals.len() - i,
    {
        proof {
            assert(ls.subrange(0, i + 1).drop_last() =~= ls.subrange(0, i as int));
        }
        let ghost before = r@;
        r.append(f.fn_retvals[i].ret_name.as_str());
        r.append(" ");
        r.append(f.fn_retvals[i].ret_desc.as_str());
        r.append("\n.br\n");
        assert(r@ =~= before + ls[i as int]);
        i = i + 1;
    }
    assert(ls.subrange(0, f.fn_retvals.len() as int) =~= ls);
    r.append(".PP\n");
    assert(r@ =~= retvals_body(f@));
    r
}

fn define_block_exec(out: &mut String, d: &HashDefine)
    ensures
        final(out)@ == old(out)@ + define_block(d@),
{
    let up = to_upper(d.hd_name.as_str());
    if str_eq(up.as_str(), d.hd_name.as_str()) {
        if d.hd_brief.as_str().unicode_len() > 0 {
            out.append(".PP\n");
            out.append(d.hd_brief.as_str());
            out.append("\n.br\n");
        }
        let ghost a = out@;
        if d.hd_desc.as_str().unicode_len() > 0 {
            out.append(".br\n");
            out.append(d.hd_desc.as_str());
            out.append("\n.br\n");
        }
        let ghost b = out@;
        out.append("#define ");
        out.append(d.hd_name.as_str());
        out.append(" ");
        out.append(d.hd_init.as_str());
        out.append("\n.br\n");
    }
    assert(out@ =~= old(out)@ + define_block(d@));
}

fn defines_body_exec(ds: &Vec<HashDefine>) -> (r: String)
    ensures
        r@ == defines_body(defines_view(ds@)),
{
    let ghost dv = defines_view(ds@);
    let ghost ls = Seq::new(dv.len(), |i: int| define_block(dv[i]));
    let mut r = String::new();
    let mut i: usize = 0;
    while i < ds.len()
        invariant
            i <= ds.len(),
            dv == defines_view(ds@),
            ls.len() == dv.len(),
            forall|j: int| 0 <= j < ls.len() ==> #[trigger] ls[j] == define_block(dv[j]),
            r@ == concat(ls.subrange(0, i as int)),
        decreases ds.len() - i,
    {
        proof {
            assert(ls.subrange(0, i + 1).drop_last() =~= ls.subrange(0, i as int));
        }
        define_block_exec(&mut r, &ds[i]);
        i = i + 1;
    }
    assert(ls.subrange(0, ds.len() as int) =~= ls);
    r
}

fn other_names_exec(fs: &Vec<FunctionInfo>, me: &str) -> (r: Vec<String>)
    ensures
        strings_view(r@) == other_names(functions_view(fs@), me@),
{
    let ghost fv = functions_view(fs@);
    let mut r: Vec<String> = Vec::new();
    let mut i: usize = 0;
    assert(strings_view(r@) =~= Seq::empty());
    while i < fs.len()
        invariant
            i <= fs.len(),
            fv == functions_view(fs@),
            strings_view(r@) == other_names(fv.subrange(0, i as int), me@),
        decreases fs.len() - i,
    {
        proof {
            assert(fv.subrange(0, i + 1).drop_last() =~= fv.subrange(0, i as int));
        }
        if !str_eq(fs[i].fn_name.as_str(), me) {
            let ghost prev = strings_view(r@);
            r.push(fs[i].fn_name.clone());
            assert(strings_view(r@) =~= prev.push(fv[i as int].name));
        }
        i = i + 1;
    }
    assert(fv.subrange(0, fs.len() as int) =~= fv);
    r
}

fn see_also_body_exec(o: &PageOptions, f: &FunctionInfo, fs: &Vec<FunctionInfo>) -> (r: String)
    ensures
        r@ == see_also_body(*o, f@, functions_view(fs@)),
{
    let names = other_names_exec(fs, f.fn_name.as_str());
    let ghost nv = strings_view(names@);
    let ghost ls = see_also_lines(nv, o.man_section as nat);
    let mut r = String::from_str(".PP\n.nh\n.ad l\n");
    let ghost head = r@;
    let mut i: usize = 0;
    assert(ls.subrange(0, 0) =~= Seq::<Seq<char>>::empty());
    assert(head =~= head + concat(ls.subrange(0, 0)));
    while i < names.len()
        invariant
            i <= names.len(),
            nv == strings_view(names@),
            ls == see_also_lines(nv, o.man_section as nat),
            r@ == head + concat(ls.subrange(0, i as int)),
        decreases names.len() - i,
    {
        proof {
            assert(ls.subrange(0, i + 1).drop_last() =~= ls.subrange(0, i as int));
        }
        let ghost before = r@;
        r.append("\\fI");
        r.append(names[i].as_str());
        r.append("\\fR(");
        append_decimal(&mut r, o.man_section as u64);
        r.append(")");
        if i + 1 < names.len() {
            r.append(", ");
        } else {
            proof {
                reveal_strlit("");
            }
        }
        r.append("\n");
        assert(r@ =~= before + ls[i as int]);
        i = i + 1;
    }
    assert(ls.subrange(0, names.len() as int) =~= ls);
    r
}

fn push_section(secs: &mut Vec<(String, String)>, title: &str, body: String)
    ensures
        pairs_view(final(secs)@) == pairs_view(old(secs)@).push((title@, body@)),
{
    let ghost prev = pairs_view(secs@);
    let ghost bv = body@;
    secs.push((String::from_str(title), body));
    assert(pairs_view(secs@) =~= prev.push((title@, bv)));
}

fn add_optional(secs: &mut Vec<(String, String)>, shown: bool, title: &str, body: String)
    requires
        shown,
    ensures
        pairs_view(final(secs)@) == pairs_view(old(secs)@) + optional(shown, title@, body@),
{
    let ghost prev = pairs_view(secs@);
    push_section(secs, title, body);
    assert(pairs_view(secs@) =~= prev + optional(shown, title@, body@));
}

fn add_params(secs: &mut Vec<(String, String)>, o: &PageOptions, f: &FunctionInfo)
    ensures
        pairs_view(final(secs)@) == pairs_view(old(secs)@) + optional(
            o.print_params && has_param_descs(f@.args),
            "PARAMS"@,
            params_body(f@.args),
        ),
{
    if o.print_params && has_param_descs_exec(&f.fn_args) {
        add_optional(secs, true, "PARAMS", params_body_exec(&f.fn_args));
    } else {
        assert(pairs_view(secs@) =~= pairs_view(old(secs)@) + Seq::empty());
    }
}

fn add_long(secs: &mut Vec<(String, String)>, title: &str, text: &str)
    ensures
        pairs_view(final(secs)@) == pairs_view(old(secs)@) + optional(
            text@.len() > 0,
            title@,
            long_text(text@),
        ),
{
    if text.unicode_len() > 0 {
        let mut body = String::new();
        print_long_string(&mut body, text);
        add_optional(secs, true, title, body);
    } else {
        assert(pairs_view(secs@) =~= pairs_view(old(secs)@) + Seq::empty());
    }
}

fn add_structures(secs: &mut Vec<(String, String)>, f: &FunctionInfo, idx: &StructureIndex)
    ensures
        pairs_view(final(secs)@) == pairs_view(old(secs)@) + optional(
            has_structures(f@.refids, idx@),
            "STRUCTURES"@,
            structures_body(f@.refids, idx@),
        ),
{
    let (structs, any) = structures_body_exec(&f.fn_refids, idx);
    if any {
        add_optional(secs, true, "STRUCTURES", structs);
    } else {
        assert(pairs_view(secs@) =~= pairs_view(old(secs)@) + Seq::empty());
    }
}

fn add_retvals(secs: &mut Vec<(String, String)>, f: &FunctionInfo)
    ensures
        pairs_view(final(secs)@) == pairs_view(old(secs)@) + optional(
            f@.returnval.len() > 0,
            "RETURN VALUES"@,
            retvals_body(f@),
        ),
{
    if f.fn_returnval.as_str().unicode_len() > 0 {
        add_optional(secs, true, "RETURN VALUES", retvals_body_exec(f));
    } else {
        assert(pairs_view(secs@) =~= pairs_view(old(secs)@) + Seq::empty());
    }
}

fn add_defines(secs: &mut Vec<(String, String)>, f: &FunctionInfo)
    ensures
        pairs_view(final(secs)@) == pairs_view(old(secs)@) + optional(
            f@.defines.len() > 0,
            "DEFINES"@,
            defines_body(f@.defines),
        ),
{
    if f.fn_defines.len() > 0 {
        add_optional(secs, true, "DEFINES", defines_body_exec(&f.fn_defines));
    } else {
        assert(pairs_view(secs@) =~= pairs_view(old(secs)@) + Seq::empty());
    }
}

fn add_copyright(secs: &mut Vec<(String, String)>, copyright: &str)
    ensures
        pairs_view(final(secs)@) == pairs_view(old(secs)@) + optional(
            copyright@.len() > 0,
            "COPYRIGHT"@,
            copyright@ + "\n"@,
        ),
{
    if copyright.unicode_len() > 0 {
        let mut body = String::from_str(copyright);
        body.append("\n");
        add_optional(secs, true, "COPYRIGHT", body);
    } else {
        assert(pairs_view(secs@) =~= pairs_view(old(secs)@) + Seq::empty());
    }
}

fn page_sections_exec(
    o: &PageOptions,
    headerfile: &str,
    f: &FunctionInfo,
    fs: &Vec<FunctionInfo>,
    idx: &StructureIndex,
    copyright: &str,
) -> (r: Vec<(String, String)>)
    ensures
        pairs_view(r@) == page_sections(*o, headerfile@, f@, functions_view(fs@), idx@, copyright@),
{
    let mut secs: Vec<(String, String)> = Vec::new();
    assert(pairs_view(secs@) =~= Seq::<(Seq<char>, Seq<char>)>::empty());
    push_section(&mut secs, "NAME", name_body_exec(f));
    push_section(&mut secs, "SYNOPSIS", synopsis_body_exec(o, headerfile, f));
    let ghost s1 = pairs_view(secs@);
    add_params(&mut secs, o, f);
    add_long(&mut secs, "DESCRIPTION", f.fn_detail.as_str());
    add_structures(&mut secs, f, idx);
    add_retvals(&mut secs, f);
    add_defines(&mut secs, f);
    add_long(&mut secs, "NOTE", f.fn_note.as_str());
    let ghost s7 = pairs_view(secs@);
    let see = see_also_body_exec(o, f, fs);
    let ghost sv = see@;
    push_section(&mut secs, "SEE ALSO", see);
    assert(pairs_view(secs@) =~= s7 + seq![("SEE ALSO"@, sv)]);
    add_copyright(&mut secs, copyright);
    assert(s1 =~= seq![("NAME"@, name_body(f@)), ("SYNOPSIS"@, synopsis_body(*o, headerfile@, f@))]);
    assert(pairs_view(secs@) == page_sections(
        *o,
        headerfile@,
        f@,
        functions_view(fs@),
        idx@,
        copyright@,
    ));
    secs
}

fn print_preamble(out: &mut String, o: &PageOptions, date: &str, f: &FunctionInfo)
    ensures
        final(out)@ == old(out)@ + preamble(*o, date@, f@),
{
    out.append(".\\\"  Automatically generated man page, do not edit\n");
    out.append(".TH ");
    let up = to_upper(f.fn_name.as_str());
    out.append(up.as_str());
    out.append(" ");
    append_decimal(out, o.man_section as u64);
    out.append(" ");
    out.append(date);
    out.append(" \"");
    out.append(o.package_name.as_str());
    out.append("\" \"");
    out.append(o.header.as_str());
    out.append("\"\n");
    assert(out@ =~= old(out)@ + preamble(*o, date@, f@));
}

/// The manual page for `f`, or `None` where `f` is the record for the header itself and that
/// page was not asked for. `fs` are all records of the input file, `idx` its structures,
/// `headerfile` the header's name, and `copyright` the line for the COPYRIGHT section (none
/// where it is empty).
pub fn print_man_page(
    o: &PageOptions,
    headerfile: &str,
    date: &str,
    f: &FunctionInfo,
    fs: &Vec<FunctionInfo>,
    idx: &StructureIndex,
    copyright: &str,
) -> (r: Option<String>)
    ensures
        match r {
            Some(page) => has_page(*o, headerfile@, f@) && page@ == man_page(
                *o,
                headerfile@,
                date@,
                f@,
                functions_view(fs@),
                idx@,
                copyright@,
            ),
            None => !has_page(*o, headerfile@, f@),
        },
{
    if str_eq(f.fn_name.as_str(), headerfile) && !o.print_general {
        return None;
    }
    let secs = page_sections_exec(o, headerfile, f, fs, idx, copyright);
    let ghost sv = pairs_view(secs@);
    let mut out = String::new();
    print_preamble(&mut out, o, date, f);
    let ghost head = out@;
    let mut i: usize = 0;
    assert(sv.subrange(0, 0) =~= Seq::<(Seq<char>, Seq<char>)>::empty());
    assert(head =~= head + sections_text(sv.subrange(0, 0)));
    while i < secs.len()
        invariant
            i <= secs.len(),
            sv == pairs_view(secs@),
            out@ == head + sections_text(sv.subrange(0, i as int)),
        decreases secs.len() - i,
    {
        proof {
            assert(sv.subrange(0, i + 1).drop_last() =~= sv.subrange(0, i as int));
        }
        let ghost before = out@;
        out.append(".SH ");
        out.append(secs[i].0.as_str());
        out.append("\n");
        out.append(secs[i].1.as_str());
        assert(out@ =~= before + section_text(sv[i as int]));
        i = i + 1;
    }
    assert(sv.subrange(0, secs.len() as int) =~= sv);
    Some(out)
}

} // verus!
