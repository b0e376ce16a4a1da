//! Builds parameter, function, define and structure records from their elements.

use crate::detail::{collect_detail_bits, detail_of};
use crate::markup::{attr_value, collect_text, element_text, get_attr};
use crate::model::{
    empty_function, opt_view, params_view, strings_view, DefineView, FnParam, FunctionInfo,
    FunctionView, HashDefine, ParamView, StructureInfo, StructureType, StructureView,
};
use crate::text::{
    lemma_lex_lt_irreflexive, lemma_lex_lt_total, lemma_lex_lt_transitive, lex_lt, str_eq, str_lt,
};
use crate::tree::{Element, Node};
use vstd::prelude::*;

verus! {

broadcast use vstd::std_specs::vec::group_vec_axioms;

/// The reference id of the last `ref` among `ns`, if any (empty where it has no `refid`).
pub open spec fn ref_fold(ns: Seq<Node>) -> Option<Seq<char>>
    decreases ns.len(),
{
    if ns.len() == 0 {
        None
    } else {
        match ns.last() {
            Node::Element(c) => if c.name@ == "ref"@ {
                Some(attr_value(c.attrs@, "refid"@))
            } else {
                ref_fold(ns.drop_last())
            },
            _ => ref_fold(ns.drop_last()),
        }
    }
}

/// The reference id that `e` points at through a `ref` child, if any.
pub fn find_refid(e: &Element) -> (r: Option<String>)
    ensures
        opt_view(r) == ref_fold(e.children@),
{
    let mut refid: Option<String> = None;
    let mut i: usize = 0;
    while i < e.children.len()
        invariant
            i <= e.children.len(),
            opt_view(refid) == ref_fold(e.children@.subrange(0, i as int)),
        decreases e.children.len() - i,
    {
        proof {
            assert(e.children@.subrange(0, i + 1).drop_last() =~= e.children@.subrange(0, i as int));
        }
        if let Node::Element(c) = &e.children[i] {
            if str_eq(c.name.as_str(), "ref") {
                refid = Some(get_attr(c, "refid"));
            }
        }
        i = i + 1;
    }
    assert(e.children@.subrange(0, e.children.len() as int) =~= e.children@);
    refid
}

/// A parameter with every field empty.
pub open spec fn empty_param() -> ParamView {
    ParamView {
        name: Seq::empty(),
        ty: Seq::empty(),
        refid: None,
        desc: Seq::empty(),
        brief: Seq::empty(),
    }
}

/// A function parameter from the children of its `param` element seen so far.
pub open spec fn param_fold(ns: Seq<Node>) -> ParamView
    decreases ns.len(),
{
    if ns.len() == 0 {
        empty_param()
    } else {
        let acc = param_fold(ns.drop_last());
        match ns.last() {
            Node::Element(c) => if c.name@ == "type"@ {
                ParamView { ty: element_text(c), refid: ref_fold(c.children@), ..acc }
            } else if c.name@ == "declname"@ {
                ParamView { name: element_text(c), ..acc }
            } else {
                acc
            },
            _ => acc,
        }
    }
}

/// The structures that the children of a `param` element name: for each child with a `ref`,
/// the reference id and the child's text.
pub open spec fn param_refs(ns: Seq<Node>) -> Seq<(Seq<char>, Seq<char>)>
    decreases ns.len(),
{
    if ns.len() == 0 {
        Seq::empty()
    } else {
        let acc = param_refs(ns.drop_last());
        match ns.last() {
            Node::Element(c) => match ref_fold(c.children@) {
                Some(r) => acc.push((r, element_text(c))),
                None => acc,
            },
            _ => acc,
        }
    }
}

/// The characters of each string pair.
pub open spec fn pairs_view(v: Seq<(String, String)>) -> Seq<(Seq<char>, Seq<char>)> {
    v.map_values(|p: (String, String)| (p.0@, p.1@))
}

/// The text of `e` and the reference id that it points at through a `ref` child, if any.
pub fn collect_text_and_refid(e: &Element) -> (r: (String, Option<String>))
    ensures
        r.0@ == element_text(*e),
        opt_view(r.1) == ref_fold(e.children@),
{
    (collect_text(e), find_refid(e))
}

/// A function parameter, and the structures it names as (reference id, name) pairs.
pub fn collect_function_param(e: &Element) -> (r: (FnParam, Vec<(String, String)>))
    ensures
        r.0@ == param_fold(e.children@),
        pairs_view(r.1@) == param_refs(e.children@),
{
    let mut par_name = String::new();
    let mut par_type = String::new();
    let mut par_refid: Option<String> = None;
    let mut refs: Vec<(String, String)> = Vec::new();
    let mut i: usize = 0;
    assert(pairs_view(refs@) =~= Seq::empty());
    while i < e.children.len()
        invariant
            i <= e.children.len(),
            (ParamView {
                name: par_name@,
                ty: par_type@,
                refid: opt_view(par_refid),
                desc: Seq::empty(),
                brief: Seq::empty(),
            }) == param_fold(e.children@.subrange(0, i as int)),
            pairs_view(refs@) == param_refs(e.children@.subrange(0, i as int)),
        decreases e.children.len() - i,
    {
        proof {
            assert(e.children@.subrange(0, i + 1).drop_last() =~= e.children@.subrange(0, i as int));
        }
        if let Node::Element(c) = &e.children[i] {
            let (text, refid) = collect_text_and_refid(c);
            let ghost prev = pairs_view(refs@);
            match &refid {
                Some(r) => {
                    refs.push((r.clone(), text.clone()));
                    assert(pairs_view(refs@) =~= prev.push((r@, text@)));
                },
                None => {},
            }
            if str_eq(c.name.as_str(), "type") {
                par_type = text;
                par_refid = refid;
            } else if str_eq(c.name.as_str(), "declname") {
                par_name = text;
            }
        }
        i = i + 1;
    }
    assert(e.children@.subrange(0, e.children.len() as int) =~= e.children@);
    (FnParam { par_name, par_type, par_refid, par_desc: String::new(), par_brief: String::new() }, refs)
}

/// `v` with `x` put in its place by `lex_lt`, unless `x` is there already.
pub open spec fn sorted_insert(v: Seq<Seq<char>>, x: Seq<char>) -> Seq<Seq<char>>
    decreases v.len(),
{
    if v.len() == 0 {
        seq![x]
    } else if lex_lt(v[0], x) {
        seq![v[0]] + sorted_insert(v.drop_first(), x)
    } else if v[0] == x {
        v
    } else {
        seq![x] + v
    }
}

/// The reference ids of `args`, each put in its place in turn.
pub open spec fn sorted_refids(args: Seq<ParamView>) -> Seq<Seq<char>>
    decreases args.len(),
{
    if args.len() == 0 {
        Seq::empty()
    } else {
        let v = sorted_refids(args.drop_last());
        match args.last().refid {
            Some(r) => sorted_insert(v, r),
            None => v,
        }
    }
}

proof fn lemma_sorted_insert_at(v: Seq<Seq<char>>, x: Seq<char>, k: int)
    requires
        0 <= k <= v.len(),
        forall|j: int| 0 <= j < k ==> lex_lt(#[trigger] v[j], x),
    ensures
        sorted_insert(v, x) == v.subrange(0, k) + sorted_insert(v.subrange(k, v.len() as int), x),
    decreases k,
{
    if k == 0 {
        assert(v.subrange(0, v.len() as int) =~= v);
        assert(v.subrange(0, 0) + sorted_insert(v, x) =~= sorted_insert(v, x));
    } else {
        let t = v.drop_first();
        assert forall|j: int| 0 <= j < k - 1 implies lex_lt(#[trigger] t[j], x) by {
            assert(t[j] == v[j + 1]);
        }
        lemma_sorted_insert_at(t, x, k - 1);
        assert(t.subrange(k - 1, t.len() as int) =~= v.subrange(k, v.len() as int));
        assert(seq![v[0]] + t.subrange(0, k - 1) =~= v.subrange(0, k));
        assert(v[0] == v[0 as int]);
        assert(seq![v[0]] + (t.subrange(0, k - 1) + sorted_insert(v.subrange(k, v.len() as int), x))
            =~= v.subrange(0, k) + sorted_insert(v.subrange(k, v.len() as int), x));
    }
}

/// Puts `x` into the sorted list `v` unless it is there already.
fn insert_refid(v: &mut Vec<String>, x: String)
    ensures
        strings_view(final(v)@) == sorted_insert(strings_view(old(v)@), x@),
{
    let ghost w = strings_view(v@);
    let mut k: usize = 0;
    while k < v.len() && str_lt(v[k].as_str(), x.as_str())
        invariant
            k <= v.len(),
            w == strings_view(v@),
            forall|j: int| 0 <= j < k ==> lex_lt(#[trigger] w[j], x@),
        decreases v.len() - k,
    {
        k = k + 1;
    }
    proof {
        lemma_sorted_insert_at(w, x@, k as int);
    }
    let ghost tail = w.subrange(k as int, w.len() as int);
    if k < v.len() && str_eq(v[k].as_str(), x.as_str()) {
        assert(tail[0] == w[k as int]);
        assert(w.subrange(0, k as int) + tail =~= w);
        return ;
    }
    proof {
        if k < w.len() {
            assert(tail[0] == w[k as int]);
        }
    }
    let ghost xv = x@;
    v.insert(k, x);
    assert(strings_view(v@) =~= w.subrange(0, k as int) + (seq![xv] + tail));
}

/// Each element comes strictly before the ones after it.
pub open spec fn strictly_sorted(v: Seq<Seq<char>>) -> bool {
    forall|i: int, j: int| 0 <= i < j < v.len() ==> lex_lt(#[trigger] v[i], #[trigger] v[j])
}

proof fn lemma_sorted_insert(v: Seq<Seq<char>>, x: Seq<char>)
    requires
        strictly_sorted(v),
    ensures
        strictly_sorted(sorted_insert(v, x)),
        forall|y: Seq<char>| #![trigger sorted_insert(v, x).contains(y)]
            sorted_insert(v, x).contains(y) <==> (v.contains(y) || y == x),
    decreases v.len(),
{
    if v.len() == 0 {
        assert(sorted_insert(v, x) =~= seq![x]);
        assert forall|y: Seq<char>| sorted_insert(v, x).contains(y) <==> (v.contains(y) || y == x) by {
            if sorted_insert(v, x).contains(y) {
                assert(sorted_insert(v, x)[0] == x);
            }
            if y == x {
                assert(sorted_insert(v, x)[0] == y);
            }
        }
    } else {
        let t = v.drop_first();
        assert forall|i: int, j: int| 0 <= i < j < t.len() implies lex_lt(#[trigger] t[i], #[trigger] t[j]) by {
            assert(t[i] == v[i + 1] && t[j] == v[j + 1]);
        }
        lemma_sorted_insert(t, x);
        let r = sorted_insert(v, x);
        if lex_lt(v[0], x) {
            let s = sorted_insert(t, x);
            assert(r == seq![v[0]] + s);
            assert forall|k: int| 0 <= k < s.len() implies lex_lt(v[0], #[trigger] s[k]) by {
                assert(s.contains(s[k]));
                if s[k] != x {
                    assert(t.contains(s[k]));
                    let m = choose|m: int| 0 <= m < t.len() && t[m] == s[k];
                    assert(v[m + 1] == s[k]);
                }
            }
            assert forall|i: int, j: int| 0 <= i < j < r.len() implies lex_lt(#[trigger] r[i], #[trigger] r[j]) by {
                if i == 0 {
                    assert(r[j] == s[j - 1]);
                } else {
                    assert(r[i] == s[i - 1] && r[j] == s[j - 1]);
                }
            }
            assert forall|y: Seq<char>| r.contains(y) <==> (v.contains(y) || y == x) by {
                if r.contains(y) {
                    let k = choose|k: int| 0 <= k < r.len() && r[k] == y;
                    if k > 0 {
                        assert(s[k - 1] == y);
                        assert(s.contains(y));
                        assert(sorted_insert(t, x).contains(y));
                        if y != x {
                            assert(t.contains(y));
                            let m = choose|m: int| 0 <= m < t.len() && t[m] == y;
                            assert(v[m + 1] == y);
                        }
                    } else {
                        assert(v[0] == y);
                    }
                }
                if v.contains(y) {
                    let k = choose|k: int| 0 <= k < v.len() && v[k] == y;
                    if k == 0 {
                        assert(r[0] == y);
                    } else {
                        assert(t[k - 1] == y);
                        assert(t.contains(y));
                        assert(sorted_insert(t, x).contains(y));
                        let m = choose|m: int| 0 <= m < s.len() && s[m] == y;
                        assert(r[m + 1] == y);
                    }
                }
                if y == x {
                    assert(sorted_insert(t, x).contains(x));
                    assert(s.contains(x));
                    let m = choose|m: int| 0 <= m < s.len() && s[m] == x;
                    assert(r[m + 1] == y);
                }
            }
        } else if v[0] == x {
            assert forall|y: Seq<char>| r.contains(y) <==> (v.contains(y) || y == x) by {
                if y == x {
                    assert(v[0] == y);
                }
            }
        } else {
            lemma_lex_lt_total(v[0], x);
            assert(r == seq![x] + v);
            assert forall|i: int, j: int| 0 <= i < j < r.len() implies lex_lt(#[trigger] r[i], #[trigger] r[j]) by {
                if i == 0 {
                    assert(r[j] == v[j - 1]);
                    if j > 1 {
                        lemma_lex_lt_transitive(x, v[0], v[j - 1]);
                    }
                } else {
                    assert(r[i] == v[i - 1] && r[j] == v[j - 1]);
                }
            }
            assert forall|y: Seq<char>| r.contains(y) <==> (v.contains(y) || y == x) by {
                if r.contains(y) {
                    let k = choose|k: int| 0 <= k < r.len() && r[k] == y;
                    if k > 0 {
                        assert(v[k - 1] == y);
                    }
                }
                if v.contains(y) {
                    let k = choose|k: int| 0 <= k < v.len() && v[k] == y;
                    assert(r[k + 1] == y);
                }
                if y == x {
                    assert(r[0] == y);
                }
            }
        }
    }
}

/// The reference ids of a function come out strictly sorted, and they are exactly those of
/// its parameters.
pub proof fn lemma_sorted_refids(args: Seq<ParamView>)
    ensures
        strictly_sorted(sorted_refids(args)),
        forall|r: Seq<char>| #![trigger sorted_refids(args).contains(r)]
            sorted_refids(args).contains(r) <==> exists|i: int|
                0 <= i < args.len() && #[trigger] args[i].refid == Some(r),
    decreases args.len(),
{
    if args.len() > 0 {
        let d = args.drop_last();
        lemma_sorted_refids(d);
        let v = sorted_refids(d);
        let last = args[args.len() - 1];
        match last.refid {
            Some(x) => {
                lemma_sorted_insert(v, x);
            },
            None => {},
        }
        assert forall|r: Seq<char>| #![trigger sorted_refids(args).contains(r)]
            sorted_refids(args).contains(r) <==> exists|i: int|
                0 <= i < args.len() && #[trigger] args[i].refid == Some(r) by {
            if sorted_refids(args).contains(r) {
                match last.refid {
                    Some(x) => {
                        assert(sorted_insert(v, x).contains(r));
                    },
                    None => {},
                }
                if v.contains(r) {
                    let i = choose|i: int| 0 <= i < d.len() && #[trigger] d[i].refid == Some(r);
                    assert(args[i] == d[i]);
                } else {
                    assert(last.refid == Some(r));
                }
            }
            if exists|i: int| 0 <= i < args.len() && #[trigger] args[i].refid == Some(r) {
                let i = choose|i: int| 0 <= i < args.len() && #[trigger] args[i].refid == Some(r);
                if i < args.len() - 1 {
                    assert(d[i] == args[i]);
                    assert(v.contains(r));
                }
                match last.refid {
                    Some(x) => {
                        assert(sorted_insert(v, x).contains(r));
                    },
                    None => {},
                }
            }
        }
    }
}

/// A structure that several parameters of a function use is listed once among its
/// reference ids, and so shown once in the STRUCTURES section, which follows that list.
pub proof fn structure_listed_once(e: Element, i: int, j: int, r: Seq<char>)
    requires
        0 <= i < function_of(e).args.len(),
        0 <= j < function_of(e).args.len(),
        function_of(e).args[i].refid == Some(r),
        function_of(e).args[j].refid == Some(r),
    ensures
        exists|k: int|
            0 <= k < function_of(e).refids.len() && function_of(e).refids[k] == r && forall|
                m: int,
            |
                0 <= m < function_of(e).refids.len() && #[trigger] function_of(e).refids[m] == r
                    ==> m == k,
{
    let f = function_of(e);
    lemma_sorted_refids(f.args);
    assert(f.refids == sorted_refids(f.args));
    assert(f.refids.contains(r));
    let k = choose|k: int| 0 <= k < f.refids.len() && f.refids[k] == r;
    assert forall|m: int| 0 <= m < f.refids.len() && #[trigger] f.refids[m] == r implies m == k by {
        if m < k {
            assert(lex_lt(f.refids[m], f.refids[k]));
            lemma_lex_lt_irreflexive(r);
        } else if m > k {
            assert(lex_lt(f.refids[k], f.refids[m]));
            lemma_lex_lt_irreflexive(r);
        }
    }
}

/// A function record from the children of its `memberdef` seen so far; reference ids are
/// added at the end.
pub open spec fn function_fold(ns: Seq<Node>) -> FunctionView
    decreases ns.len(),
{
    if ns.len() == 0 {
        empty_function()
    } else {
        let acc = function_fold(ns.drop_last());
        match ns.last() {
            Node::Element(c) => {
                let t = element_text(c);
                if c.name@ == "param"@ {
                    FunctionView { args: acc.args.push(param_fold(c.children@)), ..acc }
                } else if c.name@ == "type"@ {
                    FunctionView { ty: t, ..acc }
                } else if c.name@ == "definition"@ {
                    FunctionView { def: t, ..acc }
                } else if c.name@ == "argsstring"@ {
                    FunctionView { argsstring: t, ..acc }
                } else if c.name@ == "name"@ || c.name@ == "compoundname"@ {
                    FunctionView { name: t, ..acc }
                } else if c.name@ == "briefdescription"@ {
                    FunctionView { brief: t, ..acc }
                } else if c.name@ == "detaileddescription"@ {
                    let d = detail_of(c);
                    FunctionView {
                        detail: d.text,
                        returnval: d.return_text,
                        note: d.notes,
                        retvals: d.retvals,
                        ..acc
                    }
                } else {
                    acc
                }
            },
            _ => acc,
        }
    }
}

/// The function record of a `memberdef` element of kind `function`.
pub open spec fn function_of(e: Element) -> FunctionView {
    let f = function_fold(e.children@);
    FunctionView { refids: sorted_refids(f.args), ..f }
}

/// The structures that the parameters of a function name, in order.
pub open spec fn function_refs(ns: Seq<Node>) -> Seq<(Seq<char>, Seq<char>)>
    decreases ns.len(),
{
    if ns.len() == 0 {
        Seq::empty()
    } else {
        let acc = function_refs(ns.drop_last());
        match ns.last() {
            Node::Element(c) => if c.name@ == "param"@ {
                acc + param_refs(c.children@)
            } else {
                acc
            },
            _ => acc,
        }
    }
}

proof fn lemma_function_fold_refids(ns: Seq<Node>)
    ensures
        function_fold(ns).refids == Seq::<Seq<char>>::empty(),
    decreases ns.len(),
{
    if ns.len() > 0 {
        lemma_function_fold_refids(ns.drop_last());
    }
}

/// The function record of a `memberdef` of kind `function`, and the structures that its
/// parameters name as (reference id, name) pairs. The reference ids of the parameters' types
/// come out sorted and distinct.
pub fn collect_function_info(e: &Element) -> (r: (FunctionInfo, Vec<(String, String)>))
    ensures
        r.0@ == function_of(*e),
        pairs_view(r.1@) == function_refs(e.children@),
{
    let mut function = FunctionInfo::new();
    let mut refs: Vec<(String, String)> = Vec::new();
    let mut i: usize = 0;
    assert(pairs_view(refs@) =~= Seq::empty());
    while i < e.children.len()
        invariant
            i <= e.children.len(),
            function@ == function_fold(e.children@.subrange(0, i as int)),
            pairs_view(refs@) == function_refs(e.children@.subrange(0, i as int)),
        decreases e.children.len() - i,
    {
        proof {
            assert(e.children@.subrange(0, i + 1).drop_last() =~= e.children@.subrange(0, i as int));
        }
        proof {
            assert(e.children@.subrange(0, i + 1).last() == e.children@[i as int]);
        }
        if let Node::Element(c) = &e.children[i] {
            let name = c.name.as_str();
            if str_eq(name, "param") {
                let (param, mut more) = collect_function_param(c);
                let ghost prev_args = params_view(function.fn_args@);
                let ghost prev_refs = pairs_view(refs@);
                function.fn_args.push(param);
                refs.append(&mut more);
                assert(params_view(function.fn_args@) =~= prev_args.push(param_fold(c.children@)));
                assert(pairs_view(refs@) =~= prev_refs + param_refs(c.children@));
            } else if str_eq(name, "type") {
                function.fn_type = collect_text(c);
            } else if str_eq(name, "definition") {
                function.fn_def = collect_text(c);
            } else if str_eq(name, "argsstring") {
                function.fn_argsstring = collect_text(c);
            } else if str_eq(name, "name") || str_eq(name, "compoundname") {
                function.fn_name = collect_text(c);
            } else if str_eq(name, "briefdescription") {
                function.fn_brief = collect_text(c);
            } else if str_eq(name, "detaileddescription") {
                let d = collect_detail_bits(c);
                function.fn_detail = d.text;
                function.fn_returnval = d.return_text;
                function.fn_note = d.notes;
                function.fn_retvals = d.retvals;
            } else {
                assert(function@ == function_fold(e.children@.subrange(0, i + 1)));
            }
        }
        i = i + 1;
    }
    assert(e.children@.subrange(0, e.children.len() as int) =~= e.children@);
    proof {
        lemma_function_fold_refids(e.children@);
        assert(function@.args.subrange(0, 0) =~= Seq::<ParamView>::empty());
        assert(function@ =~= (FunctionView {
            refids: sorted_refids(function@.args.subrange(0, 0)),
            ..function_fold(e.children@)
        }));
    }
    let mut j: usize = 0;
    while j < function.fn_args.len()
        invariant
            j <= function.fn_args.len(),
            function@ == (FunctionView {
                refids: sorted_refids(function@.args.subrange(0, j as int)),
                ..function_fold(e.children@)
            }),
        decreases function.fn_args.len() - j,
    {
        proof {
            assert(function@.args.subrange(0, j + 1).drop_last() =~= function@.args.subrange(0, j as int));
        }
        match &function.fn_args[j].par_refid {
            Some(r) => {
                let x = r.clone();
                insert_refid(&mut function.fn_refids, x);
            },
            None => {},
        }
        j = j + 1;
    }
    assert(function@.args.subrange(0, function.fn_args.len() as int) =~= function@.args);
    (function, refs)
}

/// A define record from the children of its `memberdef` seen so far.
pub open spec fn define_fold(ns: Seq<Node>) -> DefineView
    decreases ns.len(),
{
    if ns.len() == 0 {
        DefineView { name: Seq::empty(), init: Seq::empty(), brief: Seq::empty(), desc: Seq::empty() }
    } else {
        let acc = define_fold(ns.drop_last());
        match ns.last() {
            Node::Element(c) => if c.name@ == "name"@ {
                DefineView { name: element_text(c), ..acc }
            } else if c.name@ == "initializer"@ {
                DefineView { init: element_text(c), ..acc }
            } else if c.name@ == "briefdescription"@ {
                DefineView { brief: element_text(c), ..acc }
            } else if c.name@ == "detaileddescription"@ {
                DefineView { desc: element_text(c), ..acc }
            } else {
                acc
            },
            _ => acc,
        }
    }
}

/// The define record of a `memberdef` of kind `define`.
pub fn collect_define(e: &Element) -> (r: HashDefine)
    ensures
        r@ == define_fold(e.children@),
{
    let mut d = HashDefine {
        hd_name: String::new(),
        hd_init: String::new(),
        hd_brief: String::new(),
        hd_desc: String::new(),
    };
    let mut i: usize = 0;
    while i < e.children.len()
        invariant
            i <= e.children.len(),
            d@ == define_fold(e.children@.subrange(0, i as int)),
        decreases e.children.len() - i,
    {
        proof {
            assert(e.children@.subrange(0, i + 1).drop_last() =~= e.children@.subrange(0, i as int));
        }
        if let Node::Element(c) = &e.children[i] {
            let name = c.name.as_str();
            if str_eq(name, "name") {
                d.hd_name = collect_text(c);
            } else if str_eq(name, "initializer") {
                d.hd_init = collect_text(c);
            } else if str_eq(name, "briefdescription") {
                d.hd_brief = collect_text(c);
            } else if str_eq(name, "detaileddescription") {
                d.hd_desc = collect_text(c);
            }
        }
        i = i + 1;
    }
    assert(e.children@.subrange(0, e.children.len() as int) =~= e.children@);
    d
}

/// A structure member from the children of its element seen so far; its array suffix
/// (`argsstring`) is kept in `refid`'s place until the end.
pub open spec fn member_fold(ns: Seq<Node>) -> (ParamView, Seq<char>)
    decreases ns.len(),
{
    if ns.len() == 0 {
        (empty_param(), Seq::empty())
    } else {
        let (p, a) = member_fold(ns.drop_last());
        match ns.last() {
            Node::Element(c) => {
                let t = element_text(c);
                if c.name@ == "name"@ {
                    (ParamView { name: t, ..p }, a)
                } else if c.name@ == "type"@ {
                    (ParamView { ty: t, ..p }, a)
                } else if c.name@ == "argsstring"@ {
                    (p, t)
                } else if c.name@ == "detaileddescription"@ {
                    (ParamView { desc: t, ..p }, a)
                } else if c.name@ == "briefdescription"@ {
                    (ParamView { brief: t, ..p }, a)
                } else {
                    (p, a)
                }
            },
            _ => (p, a),
        }
    }
}

/// The member of a structure or enum that `e` describes: its name carries any array-length
/// suffix (`buf` and `[10]` give `buf[10]`).
pub open spec fn member_of(e: Element) -> ParamView {
    let (p, a) = member_fold(e.children@);
    ParamView { name: p.name + a, ..p }
}

/// A member of a structure (`memberdef`) or of an enum (`enumvalue`).
pub fn read_structure_member(e: &Element) -> (r: FnParam)
    ensures
        r@ == member_of(*e),
{
    let mut par_name = String::new();
    let mut par_type = String::new();
    let mut par_desc = String::new();
    let mut par_brief = String::new();
    let mut par_args = String::new();
    let mut i: usize = 0;
    while i < e.children.len()
        invariant
            i <= e.children.len(),
            ((ParamView {
                name: par_name@,
                ty: par_type@,
                refid: None,
                desc: par_desc@,
                brief: par_brief@,
            }), par_args@) == member_fold(e.children@.subrange(0, i as int)),
        decreases e.children.len() - i,
    {
        proof {
            assert(e.children@.subrange(0, i + 1).drop_last() =~= e.children@.subrange(0, i as int));
        }
        if let Node::Element(c) = &e.children[i] {
            let name = c.name.as_str();
            if str_eq(name, "name") {
                par_name = collect_text(c);
            } else if str_eq(name, "type") {
                par_type = collect_text(c);
            } else if str_eq(name, "argsstring") {
                par_args = collect_text(c);
            } else if str_eq(name, "detaileddescription") {
                par_desc = collect_text(c);
            } else if str_eq(name, "briefdescription") {
                par_brief = collect_text(c);
            }
        }
        i = i + 1;
    }
    assert(e.children@.subrange(0, e.children.len() as int) =~= e.children@);
    par_name.append(par_args.as_str());
    FnParam { par_name, par_type, par_refid: None, par_desc, par_brief }
}

/// A structure record of kind `kind` with every other field empty.
pub open spec fn empty_structure(kind: StructureType) -> StructureView {
    StructureView {
        kind,
        name: Seq::empty(),
        brief: Seq::empty(),
        description: Seq::empty(),
        members: Seq::empty(),
    }
}

/// An enum record from the children of its `memberdef` seen so far.
pub open spec fn enum_fold(ns: Seq<Node>) -> StructureView
    decreases ns.len(),
{
    if ns.len() == 0 {
        empty_structure(StructureType::StrEnum)
    } else {
        let acc = enum_fold(ns.drop_last());
        match ns.last() {
            Node::Element(c) => if c.name@ == "name"@ {
                StructureView { name: element_text(c), ..acc }
            } else if c.name@ == "enumvalue"@ {
                StructureView { members: acc.members.push(member_of(c)), ..acc }
            } else if c.name@ == "briefdescription"@ {
                StructureView { brief: element_text(c), ..acc }
            } else if c.name@ == "detaileddescription"@ {
                StructureView { description: element_text(c), ..acc }
            } else {
                acc
            },
            _ => acc,
        }
    }
}

/// The enum record of a `memberdef` of kind `enum`, with its values as members.
pub fn collect_enum(e: &Element) -> (r: StructureInfo)
    ensures
        r@ == enum_fold(e.children@),
{
    let mut sinfo = StructureInfo::new();
    sinfo.str_type = StructureType::StrEnum;
    let mut i: usize = 0;
    while i < e.children.len()
        invariant
            i <= e.children.len(),
            sinfo@ == enum_fold(e.children@.subrange(0, i as int)),
        decreases e.children.len() - i,
    {
        proof {
            assert(e.children@.subrange(0, i + 1).drop_last() =~= e.children@.subrange(0, i as int));
        }
        if let Node::Element(c) = &e.children[i] {
            let name = c.name.as_str();
            if str_eq(name, "name") {
                sinfo.str_name = collect_text(c);
            } else if str_eq(name, "enumvalue") {
                let m = read_structure_member(c);
                let ghost prev = params_view(sinfo.str_members@);
                sinfo.str_members.push(m);
                assert(params_view(sinfo.str_members@) =~= prev.push(member_of(*c)));
            } else if str_eq(name, "briefdescription") {
                sinfo.str_brief = collect_text(c);
            } else if str_eq(name, "detaileddescription") {
                sinfo.str_description = collect_text(c);
            }
        }
        i = i + 1;
    }
    assert(e.children@.subrange(0, e.children.len() as int) =~= e.children@);
    sinfo
}

/// A struct's record, after walking `ns` from `acc`: elements of no interest are looked into.
pub open spec fn struct_walk(acc: StructureView, ns: Seq<Node>) -> StructureView
    decreases ns,
{
    if ns.len() == 0 {
        acc
    } else {
        let a = struct_walk(acc, ns.drop_last());
        match ns.last() {
            Node::Element(c) => if c.name@ == "compoundname"@ {
                StructureView { name: element_text(c), ..a }
            } else if c.name@ == "briefdescription"@ {
                StructureView { brief: element_text(c), ..a }
            } else if c.name@ == "includes"@ {
                a
            } else if c.name@ == "detaileddescription"@ {
                StructureView { description: element_text(c), ..a }
            } else if c.name@ == "memberdef"@ {
                StructureView { members: a.members.push(member_of(c)), ..a }
            } else {
                struct_walk(a, c.children@)
            },
            _ => a,
        }
    }
}

fn walk_structure(acc: &mut StructureInfo, ns: &Vec<Node>)
    ensures
        final(acc)@ == struct_walk(old(acc)@, ns@),
    decreases ns,
{
    let ghost start = acc@;
    let mut i: usize = 0;
    while i < ns.len()
        invariant
            i <= ns.len(),
            acc@ == struct_walk(start, ns@.subrange(0, i as int)),
        decreases ns.len() - i,
    {
        proof {
            assert(ns@.subrange(0, i + 1).drop_last() =~= ns@.subrange(0, i as int));
            assert(ns@.subrange(0, i + 1).last() == ns@[i as int]);
        }
        if let Node::Element(c) = &ns[i] {
            let name = c.name.as_str();
            if str_eq(name, "compoundname") {
                acc.str_name = collect_text(c);
            } else if str_eq(name, "briefdescription") {
                acc.str_brief = collect_text(c);
            } else if str_eq(name, "includes") {
            } else if str_eq(name, "detaileddescription") {
                acc.str_description = collect_text(c);
            } else if str_eq(name, "memberdef") {
                let m = read_structure_member(c);
                let ghost prev = params_view(acc.str_members@);
                acc.str_members.push(m);
                assert(params_view(acc.str_members@) =~= prev.push(member_of(*c)));
            } else {
                walk_structure(acc, &c.children);
            }
        }
        i = i + 1;
    }
    assert(ns@.subrange(0, ns.len() as int) =~= ns@);
}

/// The struct record of a `compounddef` element: its name, descriptions and members, found
/// also inside the elements it does not know.
pub fn read_structure(e: &Element) -> (r: StructureInfo)
    ensures
        r@ == struct_walk(empty_structure(StructureType::StrStruct), e.children@),
{
    let mut sinfo = StructureInfo::new();
    sinfo.str_type = StructureType::StrStruct;
    walk_structure(&mut sinfo, &e.children);
    sinfo
}

/// A struct's record after walking the nodes of its own file from `acc`.
pub open spec fn struct_file_walk(acc: StructureView, ns: Seq<Node>) -> StructureView
    decreases ns,
{
    if ns.len() == 0 {
        acc
    } else {
        let a = struct_file_walk(acc, ns.drop_last());
        match ns.last() {
            Node::Element(c) => if c.name@ == "compounddef"@ {
                struct_walk(empty_structure(StructureType::StrStruct), c.children@)
            } else if c.name@ == "briefdescription"@ {
                StructureView { brief: element_text(c), ..a }
            } else if c.name@ == "detaileddescription"@ {
                StructureView { description: element_text(c), ..a }
            } else {
                struct_file_walk(a, c.children@)
            },
            _ => a,
        }
    }
}

fn walk_structure_file(acc: &mut StructureInfo, ns: &Vec<Node>)
    ensures
        final(acc)@ == struct_file_walk(old(acc)@, ns@),
    decreases ns,
{
    let ghost start = acc@;
    let mut i: usize = 0;
    while i < ns.len()
        invariant
            i <= ns.len(),
            acc@ == struct_file_walk(start, ns@.subrange(0, i as int)),
        decreases ns.len() - i,
    {
        proof {
            assert(ns@.subrange(0, i + 1).drop_last() =~= ns@.subrange(0, i as int));
            assert(ns@.subrange(0, i + 1).last() == ns@[i as int]);
        }
        if let Node::Element(c) = &ns[i] {
            let name = c.name.as_str();
            if str_eq(name, "compounddef") {
                *acc = read_structure(c);
            } else if str_eq(name, "briefdescription") {
                acc.str_brief = collect_text(c);
            } else if str_eq(name, "detaileddescription") {
                acc.str_description = collect_text(c);
            } else {
                walk_structure_file(acc, &c.children);
            }
        }
        i = i + 1;
    }
    assert(ns@.subrange(0, ns.len() as int) =~= ns@);
}

/// The struct record that a structure's own file describes.
pub fn read_structure_file(doc: &Vec<Node>) -> (r: StructureInfo)
    ensures
        r@ == struct_file_walk(empty_structure(StructureType::StrStruct), doc@),
{
    let mut sinfo = StructureInfo::new();
    sinfo.str_type = StructureType::StrStruct;
    walk_structure_file(&mut sinfo, doc);
    sinfo
}

} // verus!
