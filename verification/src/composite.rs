//! Composite values: what a sequence of children is packed into, so that a
//! renderer of bounded width can render sequences of any length.

use vstd::prelude::*;
use crate::markup::{element_text, write_closing, write_opening, Element, Entry};
use crate::render::{Render, Write, WriteError};
use crate::value::{value_text, Value, ValueView};

verus! {

/// The greatest number of members of a tuple.
pub const WIDTH: usize = 10;

/// A node of rendered output, or a tuple of such nodes.
#[derive(Debug)]
pub enum Composite {
    /// An embedded value.
    Value(Value),
    /// A host element, whose children are a composite again.
    Element(Box<Element<Composite>>),
    /// A tuple; its members render in order, with nothing between them.
    Tuple(Vec<Composite>),
}

/// The mathematical content of a [`Composite`].
pub enum CompositeView {
    Value(ValueView),
    Element(Box<HostView>),
    Tuple(Seq<CompositeView>),
}

/// The mathematical content of a host element whose children are a
/// composite.
pub struct HostView {
    pub is_fragment: bool,
    pub tag: Seq<char>,
    pub attributes: Seq<Entry>,
    pub children: Option<CompositeView>,
    pub reff: Option<(Seq<char>, Seq<char>)>,
}

/// The content of a composite.
pub open spec fn composite_view(c: Composite) -> CompositeView
    decreases c,
{
    match c {
        Composite::Value(v) => CompositeView::Value(v@),
        Composite::Element(e) => CompositeView::Element(
            Box::new(
                HostView {
                    is_fragment: e.is_fragment,
                    tag: e.tag@,
                    attributes: e.attributes@,
                    children: match e.children {
                        Some(k) => Some(composite_view(k)),
                        None => None,
                    },
                    reff: match e.reff {
                        Some(p) => Some((p.0@, p.1@)),
                        None => None,
                    },
                },
            ),
        ),
        Composite::Tuple(v) => CompositeView::Tuple(composite_views(v@, v@.len())),
    }
}

/// The contents of the first `n` composites of a sequence.
pub open spec fn composite_views(s: Seq<Composite>, n: nat) -> Seq<CompositeView>
    decreases s, n,
{
    if n == 0 || n > s.len() {
        Seq::empty()
    } else {
        composite_views(s, (n - 1) as nat).push(composite_view(s[n - 1]))
    }
}

impl View for Composite {
    type V = CompositeView;

    open spec fn view(&self) -> CompositeView {
        composite_view(*self)
    }
}

/// The text of a composite: that of the value, that of the element around
/// its children, or those of a tuple's members in order.
pub open spec fn composite_text(c: CompositeView) -> Seq<char>
    decreases c,
{
    match c {
        CompositeView::Value(v) => value_text(v),
        CompositeView::Element(e) => element_text(
            e.is_fragment,
            e.tag,
            e.attributes,
            match e.children {
                Some(k) => composite_text(k),
                None => Seq::empty(),
            },
        ),
        CompositeView::Tuple(s) => texts(s),
    }
}

/// The texts of a sequence of composites, one after the other.
pub open spec fn texts(s: Seq<CompositeView>) -> Seq<char>
    decreases s,
{
    if s.len() == 0 {
        Seq::empty()
    } else {
        texts(s.drop_last()) + composite_text(s.last())
    }
}

/// The views of a sequence are as many as its composites, each the view
/// of the one at its position.
pub proof fn composite_views_index(s: Seq<Composite>, n: nat)
    requires
        n <= s.len(),
    ensures
        composite_views(s, n).len() == n,
        forall|i: int| 0 <= i < n ==> #[trigger] composite_views(s, n)[i] == composite_view(s[i]),
    decreases n,
{
    if n > 0 {
        composite_views_index(s, (n - 1) as nat);
    }
}

/// The texts of two sequences joined are the texts of each, joined.
pub proof fn texts_concat(a: Seq<CompositeView>, b: Seq<CompositeView>)
    ensures
        texts(a + b) == texts(a) + texts(b),
    decreases b.len(),
{
    if b.len() == 0 {
        assert(a + b =~= a);
        assert(texts(a) + texts(b) =~= texts(a));
    } else {
        texts_concat(a, b.drop_last());
        assert((a + b).drop_last() =~= a + b.drop_last());
        assert((a + b).last() == b.last());
        assert(texts(a + b) =~= texts(a) + texts(b));
    }
}

/// The text of a sequence of one composite is the text of that composite.
pub proof fn texts_single(c: CompositeView)
    ensures
        texts(seq![c]) == composite_text(c),
{
    assert(seq![c].drop_last() =~= Seq::<CompositeView>::empty());
    assert(texts(seq![c].drop_last()) =~= Seq::<char>::empty());
    assert(seq![c].last() == c);
    assert(texts(seq![c]) =~= composite_text(c));
}

impl Render for Composite {
    open spec fn rendered(&self) -> Seq<char> {
        composite_text(self@)
    }

    fn render<W: Write>(&self, w: &mut W) -> (r: Result<(), WriteError>) {
        render_composite(self, w)
    }
}

/// Writes the text of a composite to `w`, stopping at the first failed
/// write.
pub fn render_composite<W: Write>(c: &Composite, w: &mut W) -> (r: Result<(), WriteError>)
    ensures
        r is Ok ==> final(w).written() == old(w).written() + composite_text(c@),
        old(w).reliable() ==> r is Ok && final(w).reliable(),
    decreases c,
{
    match c {
        Composite::Value(v) => {
            v.render(w)?;
        },
        Composite::Element(e) => {
            if e.is_fragment {
                match &e.children {
                    Some(k) => {
                        render_composite(k, w)?;
                    },
                    None => {},
                }
                assert(w.written() =~= old(w).written() + composite_text(c@));
            } else {
                write_opening(e.tag.as_str(), &e.attributes, w)?;
                match &e.children {
                    Some(k) => {
                        render_composite(k, w)?;
                    },
                    None => {},
                }
                write_closing(e.tag.as_str(), w)?;
                assert(w.written() =~= old(w).written() + composite_text(c@));
            }
        },
        Composite::Tuple(v) => {
            let mut i: usize = 0;
            assert(w.written() =~= old(w).written() + texts(composite_views(v@, 0)));
            while i < v.len()
                invariant
                    i <= v.len(),
                    c is Tuple,
                    c->Tuple_0 == *v,
                    w.written() == old(w).written() + texts(composite_views(v@, i as nat)),
                    old(w).reliable() ==> w.reliable(),
                decreases v.len() - i,
            {
                let ghost next = composite_views(v@, (i + 1) as nat);
                assert(next.drop_last() =~= composite_views(v@, i as nat));
                assert(next.last() == composite_view(v@[i as int]));
                render_composite(&v[i], w)?;
                assert(w.written() =~= old(w).written() + texts(next));
                i += 1;
            }
        },
    }
    Ok(())
}

/// A host element of a composite renders as the element does by itself.
pub proof fn element_of_composite_agrees(e: Element<Composite>)
    ensures
        composite_text(composite_view(Composite::Element(Box::new(e)))) == e.rendered(),
{
}

/// How many chunks a sequence of `n` nodes is cut into.
pub open spec fn chunk_count(n: nat) -> nat {
    (n + WIDTH - 1) as nat / (WIDTH as nat)
}

/// The `k`-th chunk of a sequence: up to `WIDTH` consecutive nodes, as a
/// tuple.
pub open spec fn chunk(items: Seq<CompositeView>, k: int) -> CompositeView {
    let from = k * WIDTH;
    let to = if from + WIDTH <= items.len() {
        from + WIDTH
    } else {
        items.len() as int
    };
    CompositeView::Tuple(items.subrange(from, to))
}

/// The working list after the first `k` chunks were taken in: each chunk
/// joins the list, and a list that has reached `WIDTH` members is folded
/// into one tuple, which becomes the list's only member.
pub open spec fn working(items: Seq<CompositeView>, k: nat) -> Seq<CompositeView>
    decreases k,
{
    if k == 0 {
        Seq::empty()
    } else {
        let list = working(items, (k - 1) as nat).push(chunk(items, k - 1));
        if list.len() == WIDTH {
            seq![CompositeView::Tuple(list)]
        } else {
            list
        }
    }
}

/// The composite that a sequence of nodes is packed into: the node itself
/// where there is one, and else the working list after all chunks, as the
/// outermost tuple.
pub open spec fn encoded(items: Seq<CompositeView>) -> CompositeView {
    if items.len() == 1 {
        items[0]
    } else {
        CompositeView::Tuple(working(items, chunk_count(items.len())))
    }
}

/// Whether no tuple of a composite has more than `WIDTH` members.
pub open spec fn bounded(c: CompositeView) -> bool
    decreases c,
{
    match c {
        CompositeView::Value(_) => true,
        CompositeView::Element(e) => match e.children {
            Some(k) => bounded(k),
            None => true,
        },
        CompositeView::Tuple(s) => s.len() <= WIDTH && forall|i: int|
            0 <= i < s.len() ==> bounded(#[trigger] s[i]),
    }
}

/// The working list stays below `WIDTH` members, and packing nodes that
/// are bounded keeps every tuple within `WIDTH` members.
pub proof fn working_is_bounded(items: Seq<CompositeView>, k: nat)
    requires
        k <= chunk_count(items.len()),
        forall|i: int| 0 <= i < items.len() ==> bounded(#[trigger] items[i]),
    ensures
        working(items, k).len() < WIDTH,
        forall|i: int|
            0 <= i < working(items, k).len() ==> bounded(#[trigger] working(items, k)[i]),
    decreases k,
{
    if k > 0 {
        working_is_bounded(items, (k - 1) as nat);
        let from = (k - 1) * WIDTH;
        let to = if from + WIDTH <= items.len() {
            from + WIDTH
        } else {
            items.len() as int
        };
        let part = items.subrange(from, to);
        let before = working(items, (k - 1) as nat);
        let list = before.push(chunk(items, k - 1));
        assert forall|i: int| 0 <= i < part.len() implies bounded(#[trigger] part[i]) by {
            assert(part[i] == items[from + i]);
        }
        assert(bounded(chunk(items, k - 1)));
        assert forall|i: int| 0 <= i < list.len() implies bounded(#[trigger] list[i]) by {
            if i < before.len() {
                assert(list[i] == before[i]);
            }
        }
        if list.len() == WIDTH {
            assert(bounded(CompositeView::Tuple(list)));
            assert(working(items, k) =~= seq![CompositeView::Tuple(list)]);
        }
    }
}

/// Packing nodes whose own tuples are within `WIDTH` members gives a
/// composite all of whose tuples are.
pub proof fn encoded_is_bounded(items: Seq<CompositeView>)
    requires
        forall|i: int| 0 <= i < items.len() ==> bounded(#[trigger] items[i]),
    ensures
        bounded(encoded(items)),
{
    working_is_bounded(items, chunk_count(items.len()));
}

/// The contents of all composites of a sequence.
pub open spec fn views_of(s: Seq<Composite>) -> Seq<CompositeView> {
    composite_views(s, s.len())
}

/// The views of a sequence with one more composite are the views of the
/// sequence with one more view.
pub proof fn views_of_push(s: Seq<Composite>, c: Composite)
    ensures
        views_of(s.push(c)) == views_of(s).push(c@),
{
    composite_views_index(s, s.len());
    composite_views_index(s.push(c), s.len() + 1);
    assert(views_of(s.push(c)) =~= views_of(s).push(c@));
}

/// The views of a part of a sequence are that part of its views.
pub proof fn views_of_subrange(s: Seq<Composite>, from: int, to: int)
    requires
        0 <= from <= to <= s.len(),
    ensures
        views_of(s.subrange(from, to)) == views_of(s).subrange(from, to),
{
    composite_views_index(s, s.len());
    composite_views_index(s.subrange(from, to), (to - from) as nat);
    assert(views_of(s.subrange(from, to)) =~= views_of(s).subrange(from, to));
}

/// Folds the working list into one tuple where it has reached `WIDTH`
/// members.
fn carry(group: Vec<Composite>) -> (r: Vec<Composite>)
    ensures
        views_of(r@) == if group@.len() == WIDTH {
            seq![CompositeView::Tuple(views_of(group@))]
        } else {
            views_of(group@)
        },
{
    if group.len() == WIDTH {
        let mut folded: Vec<Composite> = Vec::new();
        let ghost members = group@;
        folded.push(Composite::Tuple(group));
        proof {
            composite_views_index(folded@, 1);
            assert(views_of(folded@) =~= seq![CompositeView::Tuple(views_of(members))]);
        }
        folded
    } else {
        group
    }
}

/// Packs a sequence of nodes into a composite that a renderer of tuples of
/// up to `WIDTH` members can render. One node stands for itself. Otherwise
/// the nodes are cut into chunks of up to `WIDTH`, and the chunks join a
/// working list that is folded into one tuple whenever it reaches `WIDTH`
/// members.
pub fn encode(items: Vec<Composite>) -> (r: Composite)
    ensures
        r@ == encoded(views_of(items@)),
{
    let mut items = items;
    let ghost src = items@;
    let ghost all = views_of(src);
    let n = items.len();
    proof {
        composite_views_index(src, src.len());
    }
    if n == 1 {
        let only = items.pop();
        return only.unwrap();
    }
    let mut group: Vec<Composite> = Vec::new();
    let mut part: Vec<Composite> = Vec::new();
    let ghost mut k: nat = 0;
    proof {
        assert(part@ =~= src.subrange(0, 0));
    }
    for item in it: items
        invariant
            it.seq() == src,
            all == views_of(src),
            all.len() == src.len(),
            k * WIDTH <= it.index() < k * WIDTH + WIDTH,
            part@ == src.subrange(k * WIDTH, it.index() as int),
            views_of(group@) == working(all, k),
    {
        let ghost m = it.index() as int;
        part.push(item);
        assert(part@ =~= src.subrange(k * WIDTH, m + 1));
        if part.len() == WIDTH {
            proof {
                views_of_subrange(src, k * WIDTH, m + 1);
                views_of_push(group@, Composite::Tuple(part));
                assert(Composite::Tuple(part)@ == chunk(all, k as int));
            }
            group.push(Composite::Tuple(part));
            proof {
                composite_views_index(group@, group@.len());
            }
            group = carry(group);
            part = Vec::new();
            proof {
                k = k + 1;
                assert(part@ =~= src.subrange(k * WIDTH, m + 1));
            }
        }
    }
    if part.len() > 0 {
        proof {
            views_of_subrange(src, k * WIDTH, src.len() as int);
            views_of_push(group@, Composite::Tuple(part));
            assert(Composite::Tuple(part)@ == chunk(all, k as int));
        }
        group.push(Composite::Tuple(part));
        proof {
            composite_views_index(group@, group@.len());
        }
        group = carry(group);
        proof {
            k = k + 1;
        }
    }
    assert(k == chunk_count(src.len()));
    Composite::Tuple(group)
}

/// Packing changes nothing of what is rendered: the composite renders to
/// the texts of the nodes, one after the other in their order.
pub proof fn encoded_renders_in_order(items: Seq<CompositeView>)
    ensures
        composite_text(encoded(items)) == texts(items),
{
    if items.len() == 1 {
        assert(items =~= seq![items[0]]);
        texts_single(items[0]);
    } else {
        working_renders_in_order(items, chunk_count(items.len()));
        assert(items.take(items.len() as int) =~= items);
    }
}

/// The working list after `k` chunks renders to the texts of the nodes of
/// those chunks.
pub proof fn working_renders_in_order(items: Seq<CompositeView>, k: nat)
    requires
        k <= chunk_count(items.len()),
    ensures
        texts(working(items, k)) == texts(
            items.take(
                if k * WIDTH <= items.len() {
                    (k * WIDTH) as int
                } else {
                    items.len() as int
                },
            ),
        ),
    decreases k,
{
    if k == 0 {
        assert(items.take(0) =~= Seq::<CompositeView>::empty());
    } else {
        working_renders_in_order(items, (k - 1) as nat);
        let from = (k - 1) * WIDTH;
        let to = if from + WIDTH <= items.len() {
            from + WIDTH
        } else {
            items.len() as int
        };
        let part = items.subrange(from, to);
        let before = working(items, (k - 1) as nat);
        let list = before.push(chunk(items, k - 1));
        assert(list =~= before + seq![chunk(items, k - 1)]);
        texts_concat(before, seq![chunk(items, k - 1)]);
        texts_single(chunk(items, k - 1));
        assert(items.take(to) =~= items.take(from) + part);
        texts_concat(items.take(from), part);
        assert(texts(list) == texts(items.take(to)));
        if list.len() == WIDTH {
            texts_single(CompositeView::Tuple(list));
        }
    }
}

} // verus!
