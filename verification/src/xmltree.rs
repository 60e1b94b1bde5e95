//! XML documents as trees of elements with their attributes.

use vstd::prelude::*;

verus! {

/// An attribute as it comes from the parser: namespace (empty for none), name, value.
pub type RawAttr = (String, String, String);

/// One element as it comes from the parser: name, attributes, number of child elements.
pub type RawItem = (String, Vec<RawAttr>, usize);

/// The value of an attribute: namespace, name, value.
pub type AttrView = (Seq<char>, Seq<char>, Seq<char>);

/// The value of one element in pre-order: name, attributes, number of child elements.
pub type ItemView = (Seq<char>, Seq<AttrView>, nat);

pub open spec fn raw_attr_view(a: RawAttr) -> AttrView {
    (a.0@, a.1@, a.2@)
}

pub open spec fn attrs_view(v: Seq<RawAttr>) -> Seq<AttrView> {
    v.map_values(|a: RawAttr| raw_attr_view(a))
}

pub open spec fn raw_item_view(it: RawItem) -> ItemView {
    (it.0@, attrs_view(it.1@), it.2 as nat)
}

pub open spec fn raw_items_view(v: Seq<RawItem>) -> Seq<ItemView> {
    v.map_values(|it: RawItem| raw_item_view(it))
}

/// What `minidom` makes of a document: its elements in pre-order (each element, then
/// the elements below it), or `None` when it refuses the text.
pub uninterp spec fn xml_preorder(text: Seq<char>) -> Option<Seq<ItemView>>;

/// Parses `text` with `minidom::Element::from_str` and lists the elements of the
/// document in pre-order (each element, then its child elements in document order, each
/// followed by the elements below it), each with its name, its attributes (namespace,
/// name, value) in the order that `minidom` keeps them (a `BTreeMap`, so sorted), and its
/// number of child elements; text between elements is not listed. `None` when
/// `minidom` refuses the text. The body only walks the parsed element tree to list it;
/// which texts `minidom` accepts, and how it reads them, is left to the name
/// `xml_preorder`.
#[verifier::external_body]
pub(crate) fn parse_xml_preorder(text: &str) -> (r: Option<Vec<RawItem>>)
    ensures
        match r {
            Some(v) => xml_preorder(text@) == Some(raw_items_view(v@)),
            None => xml_preorder(text@) is None,
        },
{
    let root: minidom::Element = text.parse().ok()?;
    let (mut out, mut todo) = (Vec::new(), vec![&root]);
    while let Some(e) = todo.pop() {
        let attrs = e.attrs().iter().map(|((ns, k), v)| (ns.to_string(), k.to_string(), v.clone()));
        out.push((e.name().to_string(), attrs.collect(), e.children().count()));
        todo.extend(e.children().collect::<Vec<_>>().into_iter().rev());
    }
    Some(out)
}

/// An element of a document, with the elements below it.
pub struct XmlTree {
    pub name: Seq<char>,
    pub attrs: Seq<AttrView>,
    pub children: Seq<XmlTree>,
}

/// The elements of a tree in pre-order.
pub open spec fn preorder(t: XmlTree) -> Seq<ItemView>
    decreases t,
{
    seq![(t.name, t.attrs, t.children.len())] + preorder_list(t.children)
}

/// The elements of a sequence of trees in pre-order, one tree after the other.
pub open spec fn preorder_list(ts: Seq<XmlTree>) -> Seq<ItemView>
    decreases ts,
{
    if ts.len() == 0 {
        Seq::empty()
    } else {
        preorder(ts[0]) + preorder_list(ts.skip(1))
    }
}

/// Whether `p` is a prefix of `s`.
pub open spec fn is_prefix<A>(p: Seq<A>, s: Seq<A>) -> bool {
    p.len() <= s.len() && s.take(p.len() as int) == p
}

/// Two trees whose pre-orders both begin a sequence are the same tree.
pub proof fn lemma_preorder_prefix_unique(t1: XmlTree, t2: XmlTree, s: Seq<ItemView>)
    requires
        is_prefix(preorder(t1), s),
        is_prefix(preorder(t2), s),
    ensures
        t1 == t2,
    decreases t1,
{
    let p1 = preorder(t1);
    let p2 = preorder(t2);
    assert(p1[0] == s[0]);
    assert(p2[0] == s[0]);
    assert(t1.children.len() == t2.children.len());
    let r = s.skip(1);
    assert(preorder_list(t1.children) =~= p1.skip(1));
    assert(preorder_list(t2.children) =~= p2.skip(1));
    assert(is_prefix(preorder_list(t1.children), r)) by {
        assert(r.take(preorder_list(t1.children).len() as int) =~= s.take(p1.len() as int).skip(1));
    }
    assert(is_prefix(preorder_list(t2.children), r)) by {
        assert(r.take(preorder_list(t2.children).len() as int) =~= s.take(p2.len() as int).skip(1));
    }
    lemma_preorder_list_prefix_unique(t1.children, t2.children, r);
    assert(t1.name == t2.name);
    assert(t1.attrs == t2.attrs);
}

/// Two sequences of as many trees whose pre-orders both begin a sequence are the same.
pub proof fn lemma_preorder_list_prefix_unique(l1: Seq<XmlTree>, l2: Seq<XmlTree>, s: Seq<ItemView>)
    requires
        l1.len() == l2.len(),
        is_prefix(preorder_list(l1), s),
        is_prefix(preorder_list(l2), s),
    ensures
        l1 == l2,
    decreases l1,
{
    if l1.len() == 0 {
        assert(l1 =~= l2);
    } else {
        let a1 = preorder(l1[0]);
        let a2 = preorder(l2[0]);
        let q1 = preorder_list(l1);
        let q2 = preorder_list(l2);
        assert(is_prefix(a1, s)) by {
            assert(q1.take(a1.len() as int) =~= a1);
            assert(s.take(a1.len() as int) =~= s.take(q1.len() as int).take(a1.len() as int));
        }
        assert(is_prefix(a2, s)) by {
            assert(q2.take(a2.len() as int) =~= a2);
            assert(s.take(a2.len() as int) =~= s.take(q2.len() as int).take(a2.len() as int));
        }
        lemma_preorder_prefix_unique(l1[0], l2[0], s);
        let r = s.skip(a1.len() as int);
        let b1 = preorder_list(l1.skip(1));
        let b2 = preorder_list(l2.skip(1));
        assert(is_prefix(b1, r)) by {
            assert(r.take(b1.len() as int) =~= s.take(q1.len() as int).skip(a1.len() as int));
            assert(q1.skip(a1.len() as int) =~= b1);
        }
        assert(is_prefix(b2, r)) by {
            assert(r.take(b2.len() as int) =~= s.take(q2.len() as int).skip(a1.len() as int));
            assert(q2.skip(a2.len() as int) =~= b2);
        }
        lemma_preorder_list_prefix_unique(l1.skip(1), l2.skip(1), r);
        assert(l1 =~= seq![l1[0]] + l1.skip(1));
        assert(l2 =~= seq![l2[0]] + l2.skip(1));
    }
}

/// The pre-order of two sequences of trees, one after the other, is the pre-order of the
/// first followed by that of the second.
pub proof fn lemma_preorder_list_append(a: Seq<XmlTree>, b: Seq<XmlTree>)
    ensures
        preorder_list(a + b) == preorder_list(a) + preorder_list(b),
    decreases a.len(),
{
    if a.len() == 0 {
        assert(a + b =~= b);
        assert(preorder_list(a) + preorder_list(b) =~= preorder_list(b));
    } else {
        lemma_preorder_list_append(a.skip(1), b);
        assert((a + b).skip(1) =~= a.skip(1) + b);
        assert((a + b)[0] == a[0]);
        assert(preorder_list(a + b) =~= preorder(a[0]) + preorder_list(a.skip(1) + b));
        assert(preorder_list(a) + preorder_list(b) =~= preorder(a[0]) + (preorder_list(a.skip(1)) + preorder_list(b)));
    }
}

pub proof fn lemma_preorder_list_single(t: XmlTree)
    ensures
        preorder_list(seq![t]) == preorder(t),
{
    assert(seq![t].skip(1) =~= Seq::<XmlTree>::empty());
    assert(preorder_list(seq![t]) =~= preorder(t) + preorder_list(Seq::<XmlTree>::empty()));
}

/// An element of a parsed document, with the elements below it.
pub struct XmlElement {
    pub name: String,
    pub attrs: Vec<RawAttr>,
    pub children: Vec<XmlElement>,
}

/// The tree that an element stands for.
pub open spec fn tree_view(e: XmlElement) -> XmlTree
    decreases e,
{
    XmlTree {
        name: e.name@,
        attrs: attrs_view(e.attrs@),
        children: trees_view(e.children@),
    }
}

/// The trees that a sequence of elements stands for.
pub open spec fn trees_view(s: Seq<XmlElement>) -> Seq<XmlTree>
    decreases s,
{
    if s.len() == 0 {
        Seq::empty()
    } else {
        seq![tree_view(s[0])] + trees_view(s.skip(1))
    }
}

pub proof fn lemma_trees_view(s: Seq<XmlElement>)
    ensures
        trees_view(s).len() == s.len(),
        forall|i: int| 0 <= i < s.len() ==> #[trigger] trees_view(s)[i] == tree_view(s[i]),
    decreases s.len(),
{
    if s.len() > 0 {
        lemma_trees_view(s.skip(1));
        assert forall|i: int| 0 <= i < s.len() implies #[trigger] trees_view(s)[i] == tree_view(s[i]) by {
            if i > 0 {
                assert(trees_view(s)[i] == trees_view(s.skip(1))[i - 1]);
            }
        }
    }
}

pub proof fn lemma_trees_view_push(s: Seq<XmlElement>, x: XmlElement)
    ensures
        trees_view(s.push(x)) == trees_view(s).push(tree_view(x)),
{
    lemma_trees_view(s);
    lemma_trees_view(s.push(x));
    assert(trees_view(s.push(x)) =~= trees_view(s).push(tree_view(x)));
}

fn clone_attrs(v: &Vec<RawAttr>) -> (r: Vec<RawAttr>)
    ensures
        attrs_view(r@) == attrs_view(v@),
{
    let mut r: Vec<RawAttr> = Vec::new();
    let n = v.len();
    let mut i: usize = 0;
    while i < n
        invariant
            n == v@.len(),
            i <= n,
            r@.len() == i,
            forall|j: int| 0 <= j < i ==> raw_attr_view(#[trigger] r@[j]) == raw_attr_view(v@[j]),
        decreases n - i,
    {
        let a = &v[i];
        let x = (a.0.clone(), a.1.clone(), a.2.clone());
        r.push(x);
        i = i + 1;
    }
    assert(attrs_view(r@) =~= attrs_view(v@));
    r
}

/// The tree that begins at position `pos` of a pre-order listing, and the position
/// just after it; `None` when no tree's pre-order begins there.
fn decode_at(items: &Vec<RawItem>, pos: usize) -> (r: Option<(XmlElement, usize)>)
    requires
        pos <= items@.len(),
    ensures
        match r {
            Some((e, next)) => pos < next <= items@.len()
                && preorder(tree_view(e)) == raw_items_view(items@).subrange(pos as int, next as int),
            None => forall|t: XmlTree| !is_prefix(preorder(t), #[trigger] raw_items_view(items@).skip(pos as int)),
        },
    decreases items@.len() - pos,
{
    let ghost s = raw_items_view(items@);
    if pos >= items.len() {
        return None;
    }
    let count = items[pos].2;
    let mut children: Vec<XmlElement> = Vec::new();
    let mut cur = pos + 1;
    assert(s.subrange(pos + 1, pos + 1) =~= Seq::<ItemView>::empty());
    assert(preorder_list(trees_view(children@)) =~= Seq::<ItemView>::empty());
    while children.len() < count
        invariant
            s == raw_items_view(items@),
            pos < cur <= items@.len(),
            count == items@[pos as int].2,
            children@.len() <= count,
            preorder_list(trees_view(children@)) == s.subrange(pos + 1, cur as int),
        decreases count - children@.len(),
    {
        match decode_at(items, cur) {
            None => {
                proof {
                    assert forall|t: XmlTree| !is_prefix(preorder(t), #[trigger] s.skip(pos as int)) by {
                        if is_prefix(preorder(t), s.skip(pos as int)) {
                            let k = children@.len() as int;
                            let pt = preorder(t);
                            assert(pt[0] == s[pos as int]);
                            assert(t.children.len() == count);
                            let tail = s.skip(pos + 1);
                            let pl = preorder_list(t.children);
                            assert(pl =~= pt.skip(1));
                            assert(is_prefix(pl, tail)) by {
                                assert(tail.take(pl.len() as int) =~= s.skip(pos as int).take(pt.len() as int).skip(1));
                            }
                            let front = t.children.take(k);
                            let back = t.children.skip(k);
                            assert(t.children =~= front + back);
                            lemma_preorder_list_append(front, back);
                            let pf = preorder_list(front);
                            assert(is_prefix(pf, tail)) by {
                                assert(pl.take(pf.len() as int) =~= pf);
                                assert(tail.take(pf.len() as int) =~= tail.take(pl.len() as int).take(pf.len() as int));
                            }
                            lemma_trees_view(children@);
                            let pc = preorder_list(trees_view(children@));
                            assert(is_prefix(pc, tail)) by {
                                assert(tail.take(pc.len() as int) =~= s.subrange(pos + 1, cur as int));
                            }
                            lemma_preorder_list_prefix_unique(front, trees_view(children@), tail);
                            let after = s.skip(cur as int);
                            assert(back.len() > 0);
                            let pb = preorder_list(back);
                            assert(pl.skip(pf.len() as int) =~= pb);
                            assert(pf.len() == cur - pos - 1);
                            assert(is_prefix(pb, after)) by {
                                assert(after.take(pb.len() as int) =~= tail.take(pl.len() as int).skip(pf.len() as int));
                            }
                            let pc0 = preorder(back[0]);
                            assert(pb =~= pc0 + preorder_list(back.skip(1)));
                            assert(is_prefix(pc0, after)) by {
                                assert(after.take(pc0.len() as int) =~= after.take(pb.len() as int).take(pc0.len() as int));
                                assert(pb.take(pc0.len() as int) =~= pc0);
                            }
                            assert(!is_prefix(preorder(back[0]), s.skip(cur as int)));
                        }
                    }
                }
                return None;
            },
            Some((c, next)) => {
                proof {
                    lemma_trees_view_push(children@, c);
                    lemma_preorder_list_append(trees_view(children@), seq![tree_view(c)]);
                    lemma_preorder_list_single(tree_view(c));
                    assert(trees_view(children@).push(tree_view(c)) =~= trees_view(children@) + seq![tree_view(c)]);
                    assert(s.subrange(pos + 1, next as int) =~= s.subrange(pos + 1, cur as int) + s.subrange(cur as int, next as int));
                }
                children.push(c);
                cur = next;
            },
        }
    }
    let item = &items[pos];
    let e = XmlElement { name: item.0.clone(), attrs: clone_attrs(&item.1), children };
    proof {
        let te = tree_view(e);
        lemma_trees_view(e.children@);
        assert(s[pos as int] == raw_item_view(items@[pos as int]));
        assert(te.children.len() == count);
        assert(preorder(te) == seq![(te.name, te.attrs, te.children.len())] + preorder_list(te.children));
        assert((te.name, te.attrs, te.children.len()) == s[pos as int]);
        assert(preorder(te) =~= seq![s[pos as int]] + s.subrange(pos + 1, cur as int));
        assert(preorder(te) =~= s.subrange(pos as int, cur as int));
    }
    Some((e, cur))
}

/// The tree whose pre-order is `items`, if there is one (there is at most one).
pub open spec fn tree_of(items: Seq<ItemView>) -> Option<XmlTree> {
    if exists|t: XmlTree| preorder(t) == items {
        Some(choose|t: XmlTree| preorder(t) == items)
    } else {
        None
    }
}

/// The tree whose pre-order is `items`, as an element, or `None` when there is none.
pub fn decode_tree(items: &Vec<RawItem>) -> (r: Option<XmlElement>)
    ensures
        match r {
            Some(e) => tree_of(raw_items_view(items@)) == Some(tree_view(e)),
            None => tree_of(raw_items_view(items@)) is None,
        },
{
    let ghost s = raw_items_view(items@);
    let n = items.len();
    assert(s.skip(0) =~= s);
    match decode_at(items, 0) {
        Some((e, next)) => {
            if next == n {
                proof {
                    assert(s.subrange(0, n as int) =~= s);
                    let t = choose|t: XmlTree| preorder(t) == s;
                    assert(preorder(t) == s);
                    assert(s.take(s.len() as int) =~= s);
                    lemma_preorder_prefix_unique(t, tree_view(e), s);
                }
                Some(e)
            } else {
                proof {
                    if exists|t: XmlTree| preorder(t) == s {
                        let t = choose|t: XmlTree| preorder(t) == s;
                        assert(s.take(s.len() as int) =~= s);
                        assert(s.take(next as int) =~= s.subrange(0, next as int));
                        lemma_preorder_prefix_unique(t, tree_view(e), s);
                    }
                }
                None
            }
        },
        None => {
            proof {
                if exists|t: XmlTree| preorder(t) == s {
                    let t = choose|t: XmlTree| preorder(t) == s;
                    assert(s.take(s.len() as int) =~= s);
                    assert(is_prefix(preorder(t), s.skip(0)));
                }
            }
            None
        },
    }
}

} // verus!
