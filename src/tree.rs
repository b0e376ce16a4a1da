//! The element tree of an XML document, built from its token stream.

use crate::events::{is_stop, read_events, xml_events, Attribute, XmlToken};
use crate::text::str_eq;
use vstd::prelude::*;

verus! {

broadcast use vstd::std_specs::vec::group_vec_axioms;

/// An element: its tag name, its attributes and its children in document order.
pub struct Element {
    pub name: String,
    pub attrs: Vec<Attribute>,
    pub children: Vec<Node>,
}

/// One node of the tree.
pub enum Node {
    Element(Element),
    Text(String),
    /// An event that carries nothing used here.
    Other,
}

/// The tokens that a node stands for.
pub open spec fn node_tokens(n: Node) -> Seq<XmlToken>
    decreases n,
{
    match n {
        Node::Element(e) => seq![XmlToken::Start { name: e.name, attrs: e.attrs }] + nodes_tokens(
            e.children@,
        ) + seq![XmlToken::End { name: e.name }],
        Node::Text(s) => seq![XmlToken::Text(s)],
        Node::Other => seq![XmlToken::Other],
    }
}

/// The tokens that a run of sibling nodes stands for.
pub open spec fn nodes_tokens(ns: Seq<Node>) -> Seq<XmlToken>
    decreases ns,
{
    if ns.len() == 0 {
        Seq::empty()
    } else {
        nodes_tokens(ns.drop_last()) + node_tokens(ns.last())
    }
}

/// Two tokens are the same event: equal, where end tags compare by their names' text.
pub open spec fn same_token(a: XmlToken, b: XmlToken) -> bool {
    match a {
        XmlToken::End { name: x } => match b {
            XmlToken::End { name: y } => x@ == y@,
            _ => false,
        },
        _ => a == b,
    }
}

/// Two token sequences are the same events, one for one.
pub open spec fn agree(s: Seq<XmlToken>, t: Seq<XmlToken>) -> bool {
    s.len() == t.len() && forall|i: int| 0 <= i < s.len() ==> same_token(#[trigger] s[i], t[i])
}

/// `t[p..q]` is the run of siblings `ns`, and it ends there: at the end of `t` or at an end
/// tag, the end of the document, or an error.
pub open spec fn spans(t: Seq<XmlToken>, p: int, ns: Seq<Node>, q: int) -> bool {
    &&& 0 <= p <= q <= t.len()
    &&& agree(t.subrange(p, q), nodes_tokens(ns))
    &&& (q == t.len() || is_stop(t[q]))
}

/// `t` is the document whose top-level nodes are `ns`: their tokens, then the end of the
/// document.
pub open spec fn is_document(t: Seq<XmlToken>, ns: Seq<Node>) -> bool {
    agree(t, nodes_tokens(ns).push(XmlToken::EndDocument))
}

proof fn lemma_nodes_tokens_concat(a: Seq<Node>, b: Seq<Node>)
    ensures
        nodes_tokens(a + b) == nodes_tokens(a) + nodes_tokens(b),
    decreases b.len(),
{
    if b.len() == 0 {
        assert(a + b =~= a);
        assert(nodes_tokens(b) =~= Seq::empty());
        assert(nodes_tokens(a) + nodes_tokens(b) =~= nodes_tokens(a));
    } else {
        assert((a + b).drop_last() =~= a + b.drop_last());
        assert((a + b).last() == b.last());
        lemma_nodes_tokens_concat(a, b.drop_last());
        assert(nodes_tokens(a + b) =~= nodes_tokens(a) + nodes_tokens(b));
    }
}

proof fn lemma_nodes_tokens_first(ns: Seq<Node>)
    requires
        ns.len() > 0,
    ensures
        nodes_tokens(ns) == node_tokens(ns[0]) + nodes_tokens(ns.subrange(1, ns.len() as int)),
{
    let h = seq![ns[0]];
    let r = ns.subrange(1, ns.len() as int);
    assert(h + r =~= ns);
    lemma_nodes_tokens_concat(h, r);
    assert(h.drop_last() =~= Seq::<Node>::empty());
    assert(nodes_tokens(h.drop_last()) =~= Seq::<XmlToken>::empty());
    assert(h.last() == ns[0]);
    assert(nodes_tokens(h) =~= node_tokens(ns[0]));
}

proof fn lemma_agree_split(s: Seq<XmlToken>, a: Seq<XmlToken>, b: Seq<XmlToken>)
    requires
        agree(s, a + b),
    ensures
        agree(s.subrange(0, a.len() as int), a),
        agree(s.subrange(a.len() as int, s.len() as int), b),
{
    assert forall|i: int| 0 <= i < a.len() implies same_token(
        #[trigger] s.subrange(0, a.len() as int)[i],
        a[i],
    ) by {
        assert((a + b)[i] == a[i]);
    }
    assert forall|i: int| 0 <= i < b.len() implies same_token(
        #[trigger] s.subrange(a.len() as int, s.len() as int)[i],
        b[i],
    ) by {
        assert(s[a.len() + i] == s.subrange(a.len() as int, s.len() as int)[i]);
        assert((a + b)[a.len() + i] == b[i]);
    }
}

proof fn lemma_agree_join(s: Seq<XmlToken>, k: int, a: Seq<XmlToken>, b: Seq<XmlToken>)
    requires
        0 <= k <= s.len(),
        agree(s.subrange(0, k), a),
        agree(s.subrange(k, s.len() as int), b),
    ensures
        agree(s, a + b),
{
    assert forall|i: int| 0 <= i < s.len() implies same_token(#[trigger] s[i], (a + b)[i]) by {
        if i < k {
            assert(s.subrange(0, k)[i] == s[i]);
        } else {
            assert(s.subrange(k, s.len() as int)[i - k] == s[i]);
        }
    }
}

proof fn lemma_node_tokens_start(n: Node)
    ensures
        node_tokens(n).len() > 0,
        !is_stop(node_tokens(n)[0]),
{
}

/// Takes out the attributes and the children of each element, leaving nothing behind.
fn take_token(toks: &mut Vec<XmlToken>, p: usize) -> (t: XmlToken)
    requires
        p < old(toks).len(),
    ensures
        t == old(toks)@[p as int],
        final(toks)@ == old(toks)@.update(p as int, XmlToken::Other),
{
    let mut t = XmlToken::Other;
    std::mem::swap(&mut t, &mut toks[p]);
    t
}

proof fn lemma_spans_step(t: Seq<XmlToken>, p: int, ns: Seq<Node>, q: int)
    requires
        spans(t, p, ns, q),
        p < t.len(),
        !is_stop(t[p]),
    ensures
        ns.len() > 0,
        p + node_tokens(ns[0]).len() <= q,
        agree(t.subrange(p, p + node_tokens(ns[0]).len()), node_tokens(ns[0])),
        spans(t, p + node_tokens(ns[0]).len(), ns.subrange(1, ns.len() as int), q),
{
    if ns.len() == 0 {
        assert(nodes_tokens(ns) =~= Seq::<XmlToken>::empty());
        assert(q == p);
    } else {
        let a = node_tokens(ns[0]);
        let rest = ns.subrange(1, ns.len() as int);
        lemma_nodes_tokens_first(ns);
        let u = t.subrange(p, q);
        lemma_agree_split(u, a, nodes_tokens(rest));
        assert(u.subrange(0, a.len() as int) =~= t.subrange(p, p + a.len()));
        assert(u.subrange(a.len() as int, u.len() as int) =~= t.subrange(p + a.len(), q));
    }
}

proof fn lemma_spans_at_stop(t: Seq<XmlToken>, p: int, ns: Seq<Node>, q: int)
    requires
        spans(t, p, ns, q),
        p == t.len() || is_stop(t[p]),
    ensures
        q == p,
{
    if p < t.len() && ns.len() > 0 {
        lemma_nodes_tokens_first(ns);
        lemma_node_tokens_start(ns[0]);
        assert(t.subrange(p, q)[0] == t[p]);
    } else if p < t.len() {
        assert(nodes_tokens(ns) =~= Seq::<XmlToken>::empty());
    }
}

proof fn lemma_push_tokens(acc: Seq<Node>, n: Node)
    ensures
        nodes_tokens(acc.push(n)) == nodes_tokens(acc) + node_tokens(n),
{
    assert(acc.push(n).drop_last() =~= acc);
}

/// An error token, or tags that do not nest: the tokens are no document.
pub struct DocumentError {
    pub message: String,
}

/// Parses the run of siblings that starts at `pos`, taking their tokens out of `toks`.
fn parse_nodes(toks: &mut Vec<XmlToken>, pos: usize, Ghost(orig): Ghost<Seq<XmlToken>>) -> (r:
    Result<(Vec<Node>, usize), ()>)
    requires
        pos <= old(toks).len() == orig.len(),
        forall|j: int| pos <= j < orig.len() ==> old(toks)@[j] == orig[j],
    ensures
        final(toks).len() == orig.len(),
        r matches Ok((ns, q)) ==> spans(orig, pos as int, ns@, q as int) && forall|j: int|
            q <= j < orig.len() ==> final(toks)@[j] == orig[j],
        forall|ns: Seq<Node>, q: int|
            spans(orig, pos as int, ns, q) ==> (r matches Ok((_, q2)) && q2 == q),
    decreases orig.len() - pos,
{
    let mut acc: Vec<Node> = Vec::new();
    let mut p = pos;
    assert(orig.subrange(pos as int, pos as int) =~= Seq::<XmlToken>::empty());
    assert forall|ns: Seq<Node>, q: int| spans(orig, pos as int, ns, q) implies spans(
        orig,
        pos as int,
        ns.subrange(0, ns.len() as int),
        q,
    ) by {
        assert(ns.subrange(0, ns.len() as int) =~= ns);
    }
    loop
        invariant
            pos <= p <= orig.len(),
            toks.len() == orig.len(),
            forall|j: int| p <= j < orig.len() ==> toks@[j] == orig[j],
            agree(orig.subrange(pos as int, p as int), nodes_tokens(acc@)),
            forall|ns: Seq<Node>, q: int|
                spans(orig, pos as int, ns, q) ==> acc@.len() <= ns.len() && spans(
                    orig,
                    p as int,
                    ns.subrange(acc@.len() as int, ns.len() as int),
                    q,
                ),
        decreases orig.len() - p,
    {
        if p == toks.len() {
            proof {
                assert forall|ns: Seq<Node>, q: int| spans(orig, pos as int, ns, q) implies q
                    == p by {
                    lemma_spans_at_stop(orig, p as int, ns.subrange(acc@.len() as int, ns.len() as int), q);
                }
            }
            return Ok((acc, p));
        }
        let stop = match &toks[p] {
            XmlToken::End { .. } => true,
            XmlToken::EndDocument => true,
            XmlToken::Error(_) => true,
            _ => false,
        };
        if stop {
            proof {
                assert forall|ns: Seq<Node>, q: int| spans(orig, pos as int, ns, q) implies q
                    == p by {
                    lemma_spans_at_stop(orig, p as int, ns.subrange(acc@.len() as int, ns.len() as int), q);
                }
            }
            return Ok((acc, p));
        }
        let ghost acc0 = acc@;
        let t = take_token(toks, p);
        assert(t == orig[p as int]);
        match t {
            XmlToken::Start { name, attrs } => {
                let ghost start = XmlToken::Start { name, attrs };
                let res = parse_nodes(toks, p + 1, Ghost(orig));
                let (children, q) = match res {
                    Ok(v) => v,
                    Err(()) => {
                        proof {
                            assert forall|ns: Seq<Node>, q: int| spans(orig, pos as int, ns, q) implies false by {
                                let rest = ns.subrange(acc0.len() as int, ns.len() as int);
                                lemma_spans_step(orig, p as int, rest, q);
                                let n0 = rest[0];
                                let k = node_tokens(n0).len() as int;
                                let u = orig.subrange(p as int, p + k);
                                assert(u[0] == orig[p as int]);
                                if let Node::Element(e) = n0 {
                                    let ch = nodes_tokens(e.children@);
                                    lemma_agree_split(u, seq![XmlToken::Start { name: e.name, attrs: e.attrs }] + ch, seq![XmlToken::End { name: e.name }]);
                                    lemma_agree_split(u.subrange(0, k - 1), seq![XmlToken::Start { name: e.name, attrs: e.attrs }], ch);
                                    assert(u.subrange(0, k - 1).subrange(1, k - 1) =~= orig.subrange(p + 1, p + k - 1));
                                    assert(u.subrange(k - 1, k)[0] == orig[p + k - 1]);
                                    assert(spans(orig, p + 1, e.children@, p + k - 1));
                                }
                            }
                        }
                        return Err(());
                    },
                };
                let closes = q < toks.len() && match &toks[q] {
                    XmlToken::End { name: n } => str_eq(n.as_str(), name.as_str()),
                    _ => false,
                };
                proof {
                    assert forall|ns: Seq<Node>, qq: int| spans(orig, pos as int, ns, qq) implies closes && spans(orig, q + 1, ns.subrange(acc0.len() + 1 as int, ns.len() as int), qq) by {
                        let rest = ns.subrange(acc0.len() as int, ns.len() as int);
                        lemma_spans_step(orig, p as int, rest, qq);
                        let n0 = rest[0];
                        let k = node_tokens(n0).len() as int;
                        let u = orig.subrange(p as int, p + k);
                        assert(u[0] == orig[p as int]);
                        if let Node::Element(e) = n0 {
                            let ch = nodes_tokens(e.children@);
                            lemma_agree_split(u, seq![XmlToken::Start { name: e.name, attrs: e.attrs }] + ch, seq![XmlToken::End { name: e.name }]);
                            lemma_agree_split(u.subrange(0, k - 1), seq![XmlToken::Start { name: e.name, attrs: e.attrs }], ch);
                            assert(u.subrange(0, k - 1).subrange(1, k - 1) =~= orig.subrange(p + 1, p + k - 1));
                            assert(u.subrange(k - 1, k)[0] == orig[p + k - 1]);
                            assert(spans(orig, p + 1, e.children@, p + k - 1));
                            assert(rest.subrange(1, rest.len() as int) =~= ns.subrange(acc0.len() + 1 as int, ns.len() as int));
                        }
                    }
                }
                if !closes {
                    proof {
                        assert forall|ns: Seq<Node>, qq: int| spans(orig, pos as int, ns, qq) implies false by {}
                    }
                    return Err(());
                }
                let node = Node::Element(Element { name, attrs, children });
                proof {
                    lemma_push_tokens(acc0, node);
                    let toks_n = node_tokens(node);
                    let ch = nodes_tokens(children@);
                    let u = orig.subrange(p as int, q + 1);
                    assert(u.subrange(0, 1) =~= seq![start]);
                    assert(u.subrange(1, u.len() as int).subrange(0, ch.len() as int) =~= orig.subrange(p + 1, q as int));
                    assert(u.subrange(1, u.len() as int).subrange(ch.len() as int, u.len() - 1) =~= seq![orig[q as int]]);
                    lemma_agree_join(u.subrange(1, u.len() as int), ch.len() as int, ch, seq![XmlToken::End { name }]);
                    lemma_agree_join(u, 1, seq![start], ch + seq![XmlToken::End { name }]);
                    assert(seq![start] + (ch + seq![XmlToken::End { name }]) =~= toks_n);
                    let w = orig.subrange(pos as int, q + 1);
                    assert(w.subrange(0, p - pos) =~= orig.subrange(pos as int, p as int));
                    assert(w.subrange(p - pos, w.len() as int) =~= u);
                    lemma_agree_join(w, p - pos, nodes_tokens(acc0), toks_n);
                }
                acc.push(node);
                p = q + 1;
            },
            XmlToken::Text(s) => {
                let node = Node::Text(s);
                proof {
                    lemma_push_tokens(acc0, node);
                    let w = orig.subrange(pos as int, p + 1);
                    assert(w.subrange(0, p - pos) =~= orig.subrange(pos as int, p as int));
                    assert(w.subrange(p - pos, w.len() as int) =~= seq![orig[p as int]]);
                    lemma_agree_join(w, p - pos, nodes_tokens(acc0), node_tokens(node));
                    assert forall|ns: Seq<Node>, qq: int| spans(orig, pos as int, ns, qq) implies spans(orig, p + 1, ns.subrange(acc0.len() + 1 as int, ns.len() as int), qq) by {
                        let rest = ns.subrange(acc0.len() as int, ns.len() as int);
                        lemma_spans_step(orig, p as int, rest, qq);
                        assert(orig.subrange(p as int, p + node_tokens(rest[0]).len())[0] == orig[p as int]);
                        assert(rest.subrange(1, rest.len() as int) =~= ns.subrange(acc0.len() + 1 as int, ns.len() as int));
                    }
                }
                acc.push(node);
                p = p + 1;
            },
            _ => {
                let node = Node::Other;
                proof {
                    lemma_push_tokens(acc0, node);
                    let w = orig.subrange(pos as int, p + 1);
                    assert(w.subrange(0, p - pos) =~= orig.subrange(pos as int, p as int));
                    assert(w.subrange(p - pos, w.len() as int) =~= seq![orig[p as int]]);
                    lemma_agree_join(w, p - pos, nodes_tokens(acc0), node_tokens(node));
                    assert forall|ns: Seq<Node>, qq: int| spans(orig, pos as int, ns, qq) implies spans(orig, p + 1, ns.subrange(acc0.len() + 1 as int, ns.len() as int), qq) by {
                        let rest = ns.subrange(acc0.len() as int, ns.len() as int);
                        lemma_spans_step(orig, p as int, rest, qq);
                        assert(orig.subrange(p as int, p + node_tokens(rest[0]).len())[0] == orig[p as int]);
                        assert(rest.subrange(1, rest.len() as int) =~= ns.subrange(acc0.len() + 1 as int, ns.len() as int));
                    }
                }
                acc.push(node);
                p = p + 1;
            },
        }
    }
}

/// The top-level nodes of the document that `tokens` spell, or an error where they spell none.
pub fn build_tree(tokens: Vec<XmlToken>) -> (r: Result<Vec<Node>, DocumentError>)
    ensures
        r matches Ok(ns) ==> is_document(tokens@, ns@),
        r is Err ==> forall|ns: Seq<Node>| !is_document(tokens@, ns),
{
    let ghost orig = tokens@;
    let mut toks = tokens;
    let n = toks.len();
    proof {
        assert forall|ns: Seq<Node>| is_document(orig, ns) implies n > 0 && orig[n - 1] is EndDocument
            && spans(orig, 0, ns, n - 1) by {
            let a = nodes_tokens(ns);
            assert(a.push(XmlToken::EndDocument) =~= a + seq![XmlToken::EndDocument]);
            lemma_agree_split(orig, a, seq![XmlToken::EndDocument]);
            assert(orig.subrange(a.len() as int, orig.len() as int)[0] == orig[n - 1]);
        }
    }
    match parse_nodes(&mut toks, 0, Ghost(orig)) {
        Ok((ns, q)) => {
            let at_end = q < n && q == n - 1 && match &toks[q] {
                XmlToken::EndDocument => true,
                _ => false,
            };
            if at_end {
                proof {
                    let a = nodes_tokens(ns@);
                    assert(orig.subrange(q as int, n as int) =~= seq![orig[q as int]]);
                    lemma_agree_join(orig, q as int, a, seq![XmlToken::EndDocument]);
                    assert(a.push(XmlToken::EndDocument) =~= a + seq![XmlToken::EndDocument]);
                }
                Ok(ns)
            } else {
                let message = if q < n {
                    match &toks[q] {
                        XmlToken::Error(m) => m.clone(),
                        _ => String::from_str("tags do not nest"),
                    }
                } else {
                    String::from_str("unexpected end of input")
                };
                Err(DocumentError { message })
            }
        },
        Err(()) => Err(DocumentError { message: String::from_str("tags do not nest") }),
    }
}

/// Reads `bytes` as an XML document and builds its tree.
pub fn parse_document(bytes: &[u8]) -> (r: Result<Vec<Node>, DocumentError>)
    ensures
        r matches Ok(ns) ==> is_document(xml_events(bytes@), ns@),
        r is Err ==> forall|ns: Seq<Node>| !is_document(xml_events(bytes@), ns),
{
    build_tree(read_events(bytes))
}

} // verus!
