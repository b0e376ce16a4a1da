//! Splits a detailed description into body text, return-value narrative, notes and the
//! structured list of return values, in one walk.

use crate::markup::{append_markup, attr_value, collect_text, element_text, get_attr, node_markup};
use crate::model::{retvals_view, ReturnVal, RetvalView};
use crate::text::{str_eq, trim_end, trimmed_end};
use crate::tree::{Element, Node};
use vstd::prelude::*;

verus! {

broadcast use vstd::std_specs::vec::group_vec_axioms;

/// The four parts of a detailed description.
pub struct DetailParts {
    pub text: String,
    pub return_text: String,
    pub notes: String,
    pub retvals: Vec<ReturnVal>,
}

/// What the four parts of a description hold.
pub struct DetailView {
    pub text: Seq<char>,
    pub return_text: Seq<char>,
    pub notes: Seq<char>,
    pub retvals: Seq<RetvalView>,
}

impl View for DetailParts {
    type V = DetailView;

    open spec fn view(&self) -> DetailView {
        DetailView {
            text: self.text@,
            return_text: self.return_text@,
            notes: self.notes@,
            retvals: retvals_view(self.retvals@),
        }
    }
}

/// The name and description of one return-value item, from the children seen so far.
pub open spec fn retval_fold(ns: Seq<Node>) -> RetvalView
    decreases ns.len(),
{
    if ns.len() == 0 {
        RetvalView { name: Seq::empty(), desc: Seq::empty() }
    } else {
        let acc = retval_fold(ns.drop_last());
        match ns.last() {
            Node::Element(c) => if c.name@ == "parameternamelist"@ {
                RetvalView { name: element_text(c), desc: acc.desc }
            } else if c.name@ == "parameterdescription"@ {
                RetvalView { name: acc.name, desc: element_text(c) }
            } else {
                acc
            },
            _ => acc,
        }
    }
}

/// The return values of a `parameterlist`: one for each `parameteritem` child, in order.
pub open spec fn retvals_fold(ns: Seq<Node>) -> Seq<RetvalView>
    decreases ns.len(),
{
    if ns.len() == 0 {
        Seq::empty()
    } else {
        let acc = retvals_fold(ns.drop_last());
        match ns.last() {
            Node::Element(c) => if c.name@ == "parameteritem"@ {
                acc.push(retval_fold(c.children@))
            } else {
                acc
            },
            _ => acc,
        }
    }
}

/// The parts of a description from the children seen so far, before trimming the body.
pub open spec fn detail_fold(ns: Seq<Node>) -> DetailView
    decreases ns,
{
    if ns.len() == 0 {
        DetailView {
            text: Seq::empty(),
            return_text: Seq::empty(),
            notes: Seq::empty(),
            retvals: Seq::empty(),
        }
    } else {
        let acc = detail_fold(ns.drop_last());
        match ns.last() {
            Node::Element(c) => {
                let kind = attr_value(c.attrs@, "kind"@);
                if c.name@ == "para"@ {
                    let d = detail_of(c);
                    DetailView {
                        text: acc.text + d.text,
                        return_text: acc.return_text + d.return_text,
                        notes: acc.notes + d.notes,
                        retvals: acc.retvals + d.retvals,
                    }
                } else if c.name@ == "parameterlist"@ && kind == "retval"@ {
                    DetailView { retvals: acc.retvals + retvals_fold(c.children@), ..acc }
                } else if c.name@ == "simplesect"@ && kind == "return"@ {
                    DetailView { return_text: acc.return_text + element_text(c), ..acc }
                } else if c.name@ == "simplesect"@ && kind == "note"@ {
                    DetailView { notes: acc.notes + element_text(c), ..acc }
                } else {
                    DetailView { text: acc.text + node_markup(ns.last()), ..acc }
                }
            },
            Node::Text(s) => DetailView { text: acc.text + s@, ..acc },
            Node::Other => acc,
        }
    }
}

/// The parts of the description `e`: its body text without trailing white space, the
/// return-value narrative and the notes (each block appended in order), and every
/// structured return value. Paragraphs are split the same way, recursively.
pub open spec fn detail_of(e: Element) -> DetailView
    decreases e,
{
    let a = detail_fold(e.children@);
    DetailView { text: trimmed_end(a.text), ..a }
}

/// One return-value item: the text of its name list and of its description.
pub fn collect_retval(e: &Element) -> (r: ReturnVal)
    ensures
        r@ == retval_fold(e.children@),
{
    let mut ret_name = String::new();
    let mut ret_desc = String::new();
    let mut i: usize = 0;
    while i < e.children.len()
        invariant
            i <= e.children.len(),
            (RetvalView { name: ret_name@, desc: ret_desc@ }) == retval_fold(
                e.children@.subrange(0, i as int),
            ),
        decreases e.children.len() - i,
    {
        proof {
            assert(e.children@.subrange(0, i + 1).drop_last() =~= e.children@.subrange(0, i as int));
        }
        if let Node::Element(c) = &e.children[i] {
            if str_eq(c.name.as_str(), "parameternamelist") {
                ret_name = collect_text(c);
            } else if str_eq(c.name.as_str(), "parameterdescription") {
                ret_desc = collect_text(c);
            }
        }
        i = i + 1;
    }
    assert(e.children@.subrange(0, e.children.len() as int) =~= e.children@);
    ReturnVal { ret_name, ret_desc }
}

/// The return values listed by `e`, one for each `parameteritem` child.
pub fn collect_retvals(e: &Element) -> (r: Vec<ReturnVal>)
    ensures
        retvals_view(r@) == retvals_fold(e.children@),
{
    let mut rvs: Vec<ReturnVal> = Vec::new();
    let mut i: usize = 0;
    assert(retvals_view(rvs@) =~= Seq::empty());
    while i < e.children.len()
        invariant
            i <= e.children.len(),
            retvals_view(rvs@) == retvals_fold(e.children@.subrange(0, i as int)),
        decreases e.children.len() - i,
    {
        proof {
            assert(e.children@.subrange(0, i + 1).drop_last() =~= e.children@.subrange(0, i as int));
        }
        if let Node::Element(c) = &e.children[i] {
            if str_eq(c.name.as_str(), "parameteritem") {
                let rv = collect_retval(c);
                rvs.push(rv);
                assert(retvals_view(rvs@) =~= retvals_fold(e.children@.subrange(0, i + 1)));
            }
        }
        i = i + 1;
    }
    assert(e.children@.subrange(0, e.children.len() as int) =~= e.children@);
    rvs
}

/// Splits the description `e` into its four parts.
pub fn collect_detail_bits(e: &Element) -> (r: DetailParts)
    ensures
        r@ == detail_of(*e),
    decreases e,
{
    let mut text = String::new();
    let mut return_text = String::new();
    let mut notes = String::new();
    let mut retvals: Vec<ReturnVal> = Vec::new();
    let mut i: usize = 0;
    assert(retvals_view(retvals@) =~= Seq::empty());
    while i < e.children.len()
        invariant
            i <= e.children.len(),
            (DetailView {
                text: text@,
                return_text: return_text@,
                notes: notes@,
                retvals: retvals_view(retvals@),
            }) == detail_fold(e.children@.subrange(0, i as int)),
        decreases e.children.len() - i,
    {
        let ghost prev = retvals_view(retvals@);
        proof {
            assert(e.children@.subrange(0, i + 1).drop_last() =~= e.children@.subrange(0, i as int));
            assert(e.children@.subrange(0, i + 1).last() == e.children@[i as int]);
        }
        let n = &e.children[i];
        match n {
            Node::Element(c) => {
                let kind = get_attr(c, "kind");
                let name = c.name.as_str();
                if str_eq(name, "para") {
                    let d = collect_detail_bits(c);
                    text.append(d.text.as_str());
                    return_text.append(d.return_text.as_str());
                    notes.append(d.notes.as_str());
                    let mut more = d.retvals;
                    retvals.append(&mut more);
                    assert(retvals_view(retvals@) =~= prev + detail_of(*c).retvals);
                } else if str_eq(name, "parameterlist") && str_eq(kind.as_str(), "retval") {
                    let mut more = collect_retvals(c);
                    retvals.append(&mut more);
                    assert(retvals_view(retvals@) =~= prev + retvals_fold(c.children@));
                } else if str_eq(name, "simplesect") && str_eq(kind.as_str(), "return") {
                    let t = collect_text(c);
                    return_text.append(t.as_str());
                } else if str_eq(name, "simplesect") && str_eq(kind.as_str(), "note") {
                    let t = collect_text(c);
                    notes.append(t.as_str());
                } else {
                    append_markup(&mut text, n);
                }
            },
            Node::Text(s) => {
                text.append(s.as_str());
            },
            Node::Other => {},
        }
        i = i + 1;
    }
    assert(e.children@.subrange(0, e.children.len() as int) =~= e.children@);
    let text = trim_end(text.as_str());
    DetailParts { text, return_text, notes, retvals }
}

} // verus!
