//! Flattens an element's subtree into troff text.

use crate::events::Attribute;
use crate::text::{str_eq, trim_end, trimmed_end};
use crate::tree::{Element, Node};
use vstd::prelude::*;

verus! {

broadcast use vstd::std_specs::vec::group_vec_axioms;

/// The value of the first attribute named `key`, or the empty string.
pub open spec fn attr_value(attrs: Seq<Attribute>, key: Seq<char>) -> Seq<char>
    decreases attrs.len(),
{
    if attrs.len() == 0 {
        Seq::empty()
    } else if attrs[0].name@ == key {
        attrs[0].value@
    } else {
        attr_value(attrs.drop_first(), key)
    }
}

/// The value of the attribute named `key` of `e`, or the empty string.
pub fn get_attr(e: &Element, key: &str) -> (r: String)
    ensures
        r@ == attr_value(e.attrs@, key@),
{
    let mut i: usize = 0;
    assert(e.attrs@.subrange(0, e.attrs@.len() as int) =~= e.attrs@);
    while i < e.attrs.len()
        invariant
            i <= e.attrs.len(),
            attr_value(e.attrs@, key@) == attr_value(e.attrs@.subrange(i as int, e.attrs@.len() as int), key@),
        decreases e.attrs.len() - i,
    {
        proof {
            let rest = e.attrs@.subrange(i as int, e.attrs@.len() as int);
            assert(rest.drop_first() =~= e.attrs@.subrange(i + 1, e.attrs@.len() as int));
        }
        if str_eq(e.attrs[i].name.as_str(), key) {
            return e.attrs[i].value.clone();
        }
        i = i + 1;
    }
    String::new()
}

/// Tags whose text passes through unchanged.
pub open spec fn is_plain_tag(name: Seq<char>) -> bool {
    name == "para"@ || name == "computeroutput"@ || name == "codeline"@ || name
        == "parameternamelist"@ || name == "parameteritem"@ || name == "parameterlist"@ || name
        == "ref"@ || name == "simplesect"@
}

/// Tags that the text collector knows: at file level they are consumed whole.
pub open spec fn is_markup_tag(name: Seq<char>) -> bool {
    is_plain_tag(name) || name == "sp"@ || name == "emphasis"@ || name == "highlight"@ || name
        == "programlisting"@ || name == "itemizedlist"@ || name == "listitem"@ || name
        == "parametername"@ || name == "parameterdescription"@ || name == "note"@ || name
        == "xreftitle"@ || name == "xrefdescription"@ || name == "xrefsect"@
}

/// Whether the text collector knows the tag `name`.
pub fn markup_tag(name: &str) -> (r: bool)
    ensures
        r == is_markup_tag(name@),
{
    str_eq(name, "para") || str_eq(name, "computeroutput") || str_eq(name, "codeline") || str_eq(
        name,
        "parameternamelist",
    ) || str_eq(name, "parameteritem") || str_eq(name, "parameterlist") || str_eq(name, "ref")
        || str_eq(name, "simplesect") || str_eq(name, "sp") || str_eq(name, "emphasis") || str_eq(
        name,
        "highlight",
    ) || str_eq(name, "programlisting") || str_eq(name, "itemizedlist") || str_eq(
        name,
        "listitem",
    ) || str_eq(name, "parametername") || str_eq(name, "parameterdescription") || str_eq(
        name,
        "note",
    ) || str_eq(name, "xreftitle") || str_eq(name, "xrefdescription") || str_eq(name, "xrefsect")
}

/// What an element named `name` shows, given the flattened text of its children.
pub open spec fn wrap_markup(name: Seq<char>, attrs: Seq<Attribute>, body: Seq<char>) -> Seq<char> {
    if is_plain_tag(name) {
        body
    } else if name == "sp"@ {
        " "@
    } else if name == "emphasis"@ {
        "\\fB"@ + body + "\\fR"@
    } else if name == "highlight"@ {
        if attr_value(attrs, "class"@) == "normal"@ {
            body
        } else {
            "\\fB"@ + body + "\\fR"@
        }
    } else if name == "programlisting"@ {
        "\n.nf\n"@ + body + "\n.fi\n"@
    } else if name == "itemizedlist"@ {
        "\n"@ + body + "\n"@
    } else if name == "listitem"@ {
        "\n* "@ + body
    } else if name == "parametername"@ {
        "\\fB"@ + body + "\\fP"@
    } else if name == "parameterdescription"@ {
        "\\fI"@ + body + "\\fP"@
    } else if name == "note"@ {
        body + "\n"@
    } else {
        Seq::empty()
    }
}

/// The troff text of one node.
pub open spec fn node_markup(n: Node) -> Seq<char>
    decreases n,
{
    match n {
        Node::Text(s) => s@,
        Node::Other => Seq::empty(),
        Node::Element(e) => wrap_markup(e.name@, e.attrs@, trimmed_end(nodes_markup(e.children@))),
    }
}

/// The troff text of a run of nodes, one after the other.
pub open spec fn nodes_markup(ns: Seq<Node>) -> Seq<char>
    decreases ns,
{
    if ns.len() == 0 {
        Seq::empty()
    } else {
        nodes_markup(ns.drop_last()) + node_markup(ns.last())
    }
}

/// The text of an element: its children's troff text without trailing white space.
pub open spec fn element_text(e: Element) -> Seq<char> {
    trimmed_end(nodes_markup(e.children@))
}

/// Appends what an element named like `e` shows around `body`.
fn append_wrapped(out: &mut String, e: &Element, body: &str)
    ensures
        final(out)@ == old(out)@ + wrap_markup(e.name@, e.attrs@, body@),
{
    let name = e.name.as_str();
    if str_eq(name, "para") || str_eq(name, "computeroutput") || str_eq(name, "codeline") || str_eq(
        name,
        "parameternamelist",
    ) || str_eq(name, "parameteritem") || str_eq(name, "parameterlist") || str_eq(name, "ref")
        || str_eq(name, "simplesect") {
        out.append(body);
    } else if str_eq(name, "sp") {
        out.append(" ");
    } else if str_eq(name, "emphasis") {
        out.append("\\fB");
        out.append(body);
        out.append("\\fR");
    } else if str_eq(name, "highlight") {
        let class = get_attr(e, "class");
        if str_eq(class.as_str(), "normal") {
            out.append(body);
        } else {
            out.append("\\fB");
            out.append(body);
            out.append("\\fR");
        }
    } else if str_eq(name, "programlisting") {
        out.append("\n.nf\n");
        out.append(body);
        out.append("\n.fi\n");
    } else if str_eq(name, "itemizedlist") {
        out.append("\n");
        out.append(body);
        out.append("\n");
    } else if str_eq(name, "listitem") {
        out.append("\n* ");
        out.append(body);
    } else if str_eq(name, "parametername") {
        out.append("\\fB");
        out.append(body);
        out.append("\\fP");
    } else if str_eq(name, "parameterdescription") {
        out.append("\\fI");
        out.append(body);
        out.append("\\fP");
    } else if str_eq(name, "note") {
        out.append(body);
        out.append("\n");
    }
    assert(out@ =~= old(out)@ + wrap_markup(e.name@, e.attrs@, body@));
}

/// Appends the troff text of `n`.
pub fn append_markup(out: &mut String, n: &Node)
    ensures
        final(out)@ == old(out)@ + node_markup(*n),
    decreases n,
{
    match n {
        Node::Text(s) => {
            out.append(s.as_str());
        },
        Node::Other => {
            assert(out@ =~= old(out)@ + node_markup(*n));
        },
        Node::Element(e) => {
            let body = collect_text(e);
            append_wrapped(out, e, body.as_str());
        },
    }
}

/// The text of `e`: its children flattened to troff, trailing white space removed.
pub fn collect_text(e: &Element) -> (r: String)
    ensures
        r@ == element_text(*e),
    decreases e,
{
    let mut text = String::new();
    let mut i: usize = 0;
    while i < e.children.len()
        invariant
            i <= e.children.len(),
            text@ == nodes_markup(e.children@.subrange(0, i as int)),
        decreases e.children.len() - i,
    {
        proof {
            assert(e.children@.subrange(0, i + 1).drop_last() =~= e.children@.subrange(0, i as int));
        }
        append_markup(&mut text, &e.children[i]);
        i = i + 1;
    }
    assert(e.children@.subrange(0, e.children.len() as int) =~= e.children@);
    trim_end(text.as_str())
}

} // verus!
