//! A plain-text listing of the records, for looking at what was read.

use crate::index::{functions_view, resolved, EntryView, StructureIndex};
use crate::model::{params_view, strings_view, FnParam, FunctionInfo, FunctionView, ParamView, StructureInfo, StructureView};
use crate::render::concat;
use vstd::prelude::*;

verus! {

broadcast use vstd::std_specs::vec::group_vec_axioms;

/// `label`, `s` and a line break, or nothing where `s` is empty.
pub open spec fn labelled(label: Seq<char>, s: Seq<char>) -> Seq<char> {
    if s.len() > 0 {
        label + s + "\n"@
    } else {
        Seq::empty()
    }
}

/// The reference id of a parameter, as listed.
pub open spec fn refid_note(r: Option<Seq<char>>) -> Seq<char> {
    match r {
        Some(r) => " (refid="@ + r + ")"@,
        None => Seq::empty(),
    }
}

/// The listing of one parameter.
pub open spec fn param_dump(p: ParamView) -> Seq<char> {
    "  PARAM: "@ + p.ty + " "@ + p.name + refid_note(p.refid) + "\n"@ + labelled(
        "  PARAM brief: "@,
        p.brief,
    ) + labelled("  PARAM desc: "@, p.desc)
}

/// The listing of one structure: its name, descriptions and members.
pub open spec fn structure_dump(s: StructureView) -> Seq<char> {
    "STRUCTURE: "@ + s.name + "\n"@ + labelled("           "@, s.brief) + labelled(
        "           "@,
        s.description,
    ) + concat(
        Seq::new(
            s.members.len(),
            |i: int| "   MEMB: "@ + s.members[i].ty + " "@ + s.members[i].name + "\n"@,
        ),
    )
}

fn append_labelled(out: &mut String, label: &str, s: &str)
    ensures
        final(out)@ == old(out)@ + labelled(label@, s@),
{
    if s.unicode_len() > 0 {
        out.append(label);
        out.append(s);
        out.append("\n");
    }
    assert(out@ =~= old(out)@ + labelled(label@, s@));
}

/// The listing of one function, with the structures it uses that are resolved.
pub open spec fn function_dump(f: FunctionView, idx: Seq<(Seq<char>, EntryView)>) -> Seq<char> {
    "FUNCTION "@ + f.ty + " "@ + f.name + " "@ + f.argsstring + "\n"@ + concat(
        Seq::new(f.args.len(), |i: int| param_dump(f.args[i])),
    ) + "BRIEF: "@ + f.brief + "\n"@ + "DETAIL: "@ + f.detail + "\n"@ + concat(
        Seq::new(
            f.refids.len(),
            |i: int|
                match resolved(idx, f.refids[i]) {
                    Some(s) => structure_dump(s),
                    None => Seq::empty(),
                },
        ),
    ) + "----------------------\n"@
}

fn dump_param(out: &mut String, p: &FnParam)
    ensures
        final(out)@ == old(out)@ + param_dump(p@),
{
    out.append("  PARAM: ");
    out.append(p.par_type.as_str());
    out.append(" ");
    out.append(p.par_name.as_str());
    let ghost a = out@;
    match &p.par_refid {
        Some(r) => {
            out.append(" (refid=");
            out.append(r.as_str());
            out.append(")");
        },
        None => {},
    }
    assert(out@ =~= a + refid_note(p@.refid));
    out.append("\n");
    append_labelled(out, "  PARAM brief: ", p.par_brief.as_str());
    append_labelled(out, "  PARAM desc: ", p.par_desc.as_str());
    assert(out@ =~= old(out)@ + param_dump(p@));
}

fn dump_structure(out: &mut String, s: &StructureInfo)
    ensures
        final(out)@ == old(out)@ + structure_dump(s@),
{
    let ghost sv = s@;
    out.append("STRUCTURE: ");
    out.append(s.str_name.as_str());
    out.append("\n");
    append_labelled(out, "           ", s.str_brief.as_str());
    append_labelled(out, "           ", s.str_description.as_str());
    let ghost head = out@;
    let ghost ls = Seq::new(
        sv.members.len(),
        |i: int| "   MEMB: "@ + sv.members[i].ty + " "@ + sv.members[i].name + "\n"@,
    );
    let mut i: usize = 0;
    assert(head =~= head + concat(ls.subrange(0, 0)));
    while i < s.str_members.len()
        invariant
            i <= s.str_members.len(),
            sv == s@,
            ls.len() == sv.members.len(),
            forall|j: int| 0 <= j < ls.len() ==> #[trigger] ls[j] == "   MEMB: "@ + sv.members[j].ty + " "@ + sv.members[j].name + "\n"@,
            out@ == head + concat(ls.subrange(0, i as int)),
        decreases s.str_members.len() - i,
    {
        proof {
            assert(ls.subrange(0, i + 1).drop_last() =~= ls.subrange(0, i as int));
        }
        let ghost before = out@;
        out.append("   MEMB: ");
        out.append(s.str_members[i].par_type.as_str());
        out.append(" ");
        out.append(s.str_members[i].par_name.as_str());
        out.append("\n");
        assert(out@ =~= before + ls[i as int]);
        i = i + 1;
    }
    assert(ls.subrange(0, s.str_members.len() as int) =~= ls);
    assert(out@ =~= old(out)@ + structure_dump(sv));
}

fn dump_params(out: &mut String, ps: &Vec<FnParam>)
    ensures
        final(out)@ == old(out)@ + concat(
            Seq::new(params_view(ps@).len(), |i: int| param_dump(params_view(ps@)[i])),
        ),
{
    let ghost pv = params_view(ps@);
    let ghost ls = Seq::new(pv.len(), |i: int| param_dump(pv[i]));
    let ghost head = out@;
    let mut i: usize = 0;
    assert(head =~= head + concat(ls.subrange(0, 0)));
    while i < ps.len()
        invariant
            i <= ps.len(),
            pv == params_view(ps@),
            ls.len() == pv.len(),
            forall|j: int| 0 <= j < ls.len() ==> #[trigger] ls[j] == param_dump(pv[j]),
            out@ == head + concat(ls.subrange(0, i as int)),
        decreases ps.len() - i,
    {
        proof {
            assert(ls.subrange(0, i + 1).drop_last() =~= ls.subrange(0, i as int));
        }
        dump_param(out, &ps[i]);
        i = i + 1;
    }
    assert(ls.subrange(0, ps.len() as int) =~= ls);
}

fn dump_structures(out: &mut String, refids: &Vec<String>, idx: &StructureIndex)
    ensures
        final(out)@ == old(out)@ + concat(
            Seq::new(
                refids@.len(),
                |i: int|
                    match resolved(idx@, strings_view(refids@)[i]) {
                        Some(s) => structure_dump(s),
                        None => Seq::<char>::empty(),
                    },
            ),
        ),
{
    let ghost rv = strings_view(refids@);
    let ghost ls = Seq::new(
        refids@.len(),
        |i: int|
            match resolved(idx@, rv[i]) {
                Some(s) => structure_dump(s),
                None => Seq::<char>::empty(),
            },
    );
    let ghost head = out@;
    let mut i: usize = 0;
    assert(head =~= head + concat(ls.subrange(0, 0)));
    while i < refids.len()
        invariant
            i <= refids.len(),
            rv == strings_view(refids@),
            ls.len() == refids@.len(),
            forall|j: int| 0 <= j < ls.len() ==> #[trigger] ls[j] == match resolved(idx@, rv[j]) {
                Some(s) => structure_dump(s),
                None => Seq::<char>::empty(),
            },
            out@ == head + concat(ls.subrange(0, i as int)),
        decreases refids.len() - i,
    {
        proof {
            assert(ls.subrange(0, i + 1).drop_last() =~= ls.subrange(0, i as int));
        }
        let ghost before = out@;
        match idx.resolved(refids[i].as_str()) {
            Some(s) => dump_structure(out, s),
            None => {
                assert(out@ =~= before + ls[i as int]);
            },
        }
        i = i + 1;
    }
    assert(ls.subrange(0, refids.len() as int) =~= ls);
}

/// The listing of one function.
pub fn print_text_function(f: &FunctionInfo, structures: &StructureIndex) -> (r: String)
    ensures
        r@ == function_dump(f@, structures@),
{
    let mut out = String::from_str("FUNCTION ");
    out.append(f.fn_type.as_str());
    out.append(" ");
    out.append(f.fn_name.as_str());
    out.append(" ");
    out.append(f.fn_argsstring.as_str());
    out.append("\n");
    let ghost a = out@;
    dump_params(&mut out, &f.fn_args);
    let ghost b = out@;
    out.append("BRIEF: ");
    out.append(f.fn_brief.as_str());
    out.append("\n");
    out.append("DETAIL: ");
    out.append(f.fn_detail.as_str());
    out.append("\n");
    let ghost c = out@;
    dump_structures(&mut out, &f.fn_refids, structures);
    let ghost d = out@;
    out.append("----------------------\n");
    assert(out@ =~= function_dump(f@, structures@));
    out
}

/// The listing of every function of an input file, one after the other.
pub fn print_ascii_pages(functions: &Vec<FunctionInfo>, structures: &StructureIndex) -> (r: String)
    ensures
        r@ == concat(
            Seq::new(
                functions@.len(),
                |i: int| function_dump(functions_view(functions@)[i], structures@),
            ),
        ),
{
    let ghost fv = functions_view(functions@);
    let ghost ls = Seq::new(functions@.len(), |i: int| function_dump(fv[i], structures@));
    let mut out = String::new();
    let mut i: usize = 0;
    while i < functions.len()
        invariant
            i <= functions.len(),
            fv == functions_view(functions@),
            ls.len() == functions@.len(),
            forall|j: int| 0 <= j < ls.len() ==> #[trigger] ls[j] == function_dump(fv[j], structures@),
            out@ == concat(ls.subrange(0, i as int)),
        decreases functions.len() - i,
    {
        proof {
            assert(ls.subrange(0, i + 1).drop_last() =~= ls.subrange(0, i as int));
        }
        let t = print_text_function(&functions[i], structures);
        out.append(t.as_str());
        i = i + 1;
    }
    assert(ls.subrange(0, functions.len() as int) =~= ls);
    out
}

} // verus!
