//! Rendering into a live document: the tree is turned into the steps that
//! build it there, which whoever holds the document carries out in order.

use vstd::prelude::*;
use crate::composite::{composite_views, Composite, CompositeView};
use crate::escape::{escape_attr, escaped};
use crate::markup::{AttributeMap, AttributeValue, AttributeValueView, Element, Entry};
use crate::value::{value_text, Value};

verus! {

/// A step of building a tree in a live document. The steps work on a stack
/// of open elements above the element that the tree is rendered under.
#[derive(Debug)]
pub enum DomOp {
    /// Creates an element of this tag and opens it.
    CreateElement(String),
    /// Sets an attribute of the open element.
    SetAttribute(String, String),
    /// Records the open element under this name in the map of references.
    Register(String),
    /// Appends a text to the open element.
    AppendText(String),
    /// Closes the open element and appends it to the one below it.
    AppendChild,
}

/// The mathematical content of a [`DomOp`].
pub enum DomOpView {
    CreateElement(Seq<char>),
    SetAttribute(Seq<char>, Seq<char>),
    Register(Seq<char>),
    AppendText(Seq<char>),
    AppendChild,
}

impl View for DomOp {
    type V = DomOpView;

    open spec fn view(&self) -> DomOpView {
        match self {
            DomOp::CreateElement(t) => DomOpView::CreateElement(t@),
            DomOp::SetAttribute(n, v) => DomOpView::SetAttribute(n@, v@),
            DomOp::Register(k) => DomOpView::Register(k@),
            DomOp::AppendText(t) => DomOpView::AppendText(t@),
            DomOp::AppendChild => DomOpView::AppendChild,
        }
    }
}

/// The contents of a sequence of steps.
pub open spec fn op_views(s: Seq<DomOp>) -> Seq<DomOpView> {
    Seq::new(s.len(), |i: int| s[i]@)
}

/// The value that marks a flag as set in a live document.
pub open spec fn truthy() -> Seq<char> {
    seq!['t', 'r', 'u', 'e']
}

/// The name of the attribute that marks an element with a reference.
pub open spec fn reference_attribute() -> Seq<char> {
    seq!['d', 'a', 't', 'a', '-', 'r', 'e', 'f']
}

/// The steps that set one attribute: none for a flag that is false, and
/// else one, with the marker of truth, the text as it is, or the text in
/// escaped form.
pub open spec fn attribute_ops(name: Seq<char>, value: AttributeValueView) -> Seq<DomOpView> {
    match value {
        AttributeValueView::Bool(b) => if b {
            seq![DomOpView::SetAttribute(name, truthy())]
        } else {
            Seq::empty()
        },
        AttributeValueView::Str(s) => seq![DomOpView::SetAttribute(name, s)],
        AttributeValueView::Escaped(s) => seq![DomOpView::SetAttribute(name, escaped(s))],
    }
}

/// The steps that set a run of attributes, in the order given.
pub open spec fn attributes_ops(entries: Seq<Entry>) -> Seq<DomOpView>
    decreases entries.len(),
{
    if entries.len() == 0 {
        Seq::empty()
    } else {
        attributes_ops(entries.drop_last()) + attribute_ops(entries.last().0, entries.last().1)
    }
}

/// The steps that mark and record an element that has a reference.
pub open spec fn reference_ops(reff: Option<(Seq<char>, Seq<char>)>) -> Seq<DomOpView> {
    match reff {
        Some((key, value)) => seq![
            DomOpView::SetAttribute(reference_attribute(), value),
            DomOpView::Register(key),
        ],
        None => Seq::empty(),
    }
}

/// The steps that build a composite under the open element, in document
/// order. An element is created, gets its attributes and its reference,
/// then its children, and is appended last; a fragment adds only its
/// children; a value is appended as text; a tuple adds its members in
/// order.
pub open spec fn dom_ops(c: CompositeView) -> Seq<DomOpView>
    decreases c,
{
    match c {
        CompositeView::Value(v) => seq![DomOpView::AppendText(value_text(v))],
        CompositeView::Element(e) => {
            let inner = match e.children {
                Some(k) => dom_ops(k),
                None => Seq::empty(),
            };
            if e.is_fragment {
                inner
            } else {
                seq![DomOpView::CreateElement(e.tag)] + attributes_ops(e.attributes)
                    + reference_ops(e.reff) + inner + seq![DomOpView::AppendChild]
            }
        },
        CompositeView::Tuple(s) => all_dom_ops(s),
    }
}

/// The steps that build a sequence of composites, one after the other.
pub open spec fn all_dom_ops(s: Seq<CompositeView>) -> Seq<DomOpView>
    decreases s,
{
    if s.len() == 0 {
        Seq::empty()
    } else {
        all_dom_ops(s.drop_last()) + dom_ops(s.last())
    }
}

fn push_attribute_ops(name: &String, value: &AttributeValue, ops: &mut Vec<DomOp>)
    ensures
        op_views(final(ops)@) == op_views(old(ops)@) + attribute_ops(name@, value@),
{
    let ghost before = op_views(ops@);
    match value {
        AttributeValue::Bool(b) => {
            if *b {
                proof {
                    reveal_strlit("true");
                    assert("true"@ =~= truthy());
                }
                ops.push(DomOp::SetAttribute(name.clone(), String::from_str("true")));
            }
        },
        AttributeValue::Str(s) => {
            ops.push(DomOp::SetAttribute(name.clone(), s.clone()));
        },
        AttributeValue::Escaped(s) => {
            ops.push(DomOp::SetAttribute(name.clone(), escape_attr(s.as_str())));
        },
    }
    assert(op_views(ops@) =~= before + attribute_ops(name@, value@));
}

fn push_attributes_ops(attributes: &AttributeMap, ops: &mut Vec<DomOp>)
    ensures
        op_views(final(ops)@) == op_views(old(ops)@) + attributes_ops(attributes@),
{
    let ghost start = op_views(ops@);
    let mut i: usize = 0;
    assert(attributes@.take(0) =~= Seq::<Entry>::empty());
    assert(op_views(ops@) =~= start + attributes_ops(attributes@.take(0)));
    while i < attributes.len()
        invariant
            i <= attributes@.len(),
            op_views(ops@) == start + attributes_ops(attributes@.take(i as int)),
        decreases attributes@.len() - i,
    {
        proof {
            assert(attributes@.take(i + 1).drop_last() =~= attributes@.take(i as int));
            assert(attributes@.take(i + 1).last() == attributes@[i as int]);
        }
        push_attribute_ops(attributes.name_at(i), attributes.value_at(i), ops);
        assert(op_views(ops@) =~= start + attributes_ops(attributes@.take(i + 1)));
        i += 1;
    }
    assert(attributes@.take(i as int) =~= attributes@);
}

impl Composite {
    /// Appends to `ops` the steps that build the composite under the open
    /// element of a live document.
    pub fn render_node(&self, ops: &mut Vec<DomOp>)
        ensures
            op_views(final(ops)@) == op_views(old(ops)@) + dom_ops(self@),
        decreases self,
    {
        let ghost start = op_views(ops@);
        match self {
            Composite::Value(v) => {
                ops.push(DomOp::AppendText(v.to_text()));
                assert(op_views(ops@) =~= start + dom_ops(self@));
            },
            Composite::Element(e) => {
                if e.is_fragment {
                    match &e.children {
                        Some(k) => {
                            k.render_node(ops);
                        },
                        None => {},
                    }
                    assert(op_views(ops@) =~= start + dom_ops(self@));
                } else {
                    ops.push(DomOp::CreateElement(e.tag.clone()));
                    assert(op_views(ops@) =~= start + seq![DomOpView::CreateElement(e.tag@)]);
                    push_attributes_ops(&e.attributes, ops);
                    let ghost with_attributes = op_views(ops@);
                    match &e.reff {
                        Some(pair) => {
                            proof {
                                reveal_strlit("data-ref");
                                assert("data-ref"@ =~= reference_attribute());
                            }
                            ops.push(
                                DomOp::SetAttribute(String::from_str("data-ref"), pair.1.clone()),
                            );
                            ops.push(DomOp::Register(pair.0.clone()));
                        },
                        None => {},
                    }
                    assert(op_views(ops@) =~= with_attributes + reference_ops(
                        self@->Element_0.reff,
                    ));
                    let ghost with_reference = op_views(ops@);
                    match &e.children {
                        Some(k) => {
                            k.render_node(ops);
                        },
                        None => {},
                    }
                    let ghost with_children = op_views(ops@);
                    ops.push(DomOp::AppendChild);
                    assert(op_views(ops@) =~= with_children + seq![DomOpView::AppendChild]);
                    assert(op_views(ops@) =~= start + dom_ops(self@));
                }
            },
            Composite::Tuple(v) => {
                let mut i: usize = 0;
                assert(op_views(ops@) =~= start + all_dom_ops(composite_views(v@, 0)));
                while i < v.len()
                    invariant
                        i <= v.len(),
                        self is Tuple,
                        self->Tuple_0 == *v,
                        op_views(ops@) == start + all_dom_ops(composite_views(v@, i as nat)),
                    decreases v.len() - i,
                {
                    let ghost next = composite_views(v@, (i + 1) as nat);
                    assert(next.drop_last() =~= composite_views(v@, i as nat));
                    assert(next.last() == v@[i as int]@);
                    v[i].render_node(ops);
                    assert(op_views(ops@) =~= start + all_dom_ops(next));
                    i += 1;
                }
            },
        }
    }
}

impl Element<Composite> {
    /// Appends to `ops` the steps that build the element under the open
    /// element of a live document.
    pub fn render_node(self, ops: &mut Vec<DomOp>)
        ensures
            op_views(final(ops)@) == op_views(old(ops)@) + dom_ops(
                Composite::Element(Box::new(self))@,
            ),
    {
        let whole = Composite::Element(Box::new(self));
        whole.render_node(ops);
    }
}

} // verus!
