//! Host elements: a tag, attributes kept in the order of their names, and
//! children that render between the opening and the closing tag.

use vstd::prelude::*;
use crate::escape::{escape_attr, escaped};
use crate::render::{Render, Write, WriteError};
use crate::text::{comes_before, precedes, precedes_is_total, precedes_is_transitive, same_text};

verus! {

/// The value of an attribute of a host element.
#[derive(Debug)]
pub enum AttributeValue {
    /// A flag: the bare name is written when it is true, nothing when it is
    /// false.
    Bool(bool),
    /// A text written between the quotes as it is.
    Str(String),
    /// A text written between the quotes in its escaped form.
    Escaped(String),
}

/// The mathematical content of an [`AttributeValue`].
pub enum AttributeValueView {
    Bool(bool),
    Str(Seq<char>),
    Escaped(Seq<char>),
}

impl View for AttributeValue {
    type V = AttributeValueView;

    open spec fn view(&self) -> AttributeValueView {
        match self {
            AttributeValue::Bool(b) => AttributeValueView::Bool(*b),
            AttributeValue::Str(s) => AttributeValueView::Str(s@),
            AttributeValue::Escaped(s) => AttributeValueView::Escaped(s@),
        }
    }
}

/// An attribute as it stands in the model of a map: its name and its value.
pub type Entry = (Seq<char>, AttributeValueView);

/// The text of one attribute, with the space that sets it off.
pub open spec fn attribute_text(name: Seq<char>, value: AttributeValueView) -> Seq<char> {
    match value {
        AttributeValueView::Bool(b) => if b {
            seq![' '] + name
        } else {
            Seq::empty()
        },
        AttributeValueView::Str(s) => seq![' '] + name + seq!['=', '"'] + s + seq!['"'],
        AttributeValueView::Escaped(s) => seq![' '] + name + seq!['=', '"'] + escaped(s)
            + seq!['"'],
    }
}

/// The text of a run of attributes: each one's text, in the order given.
pub open spec fn attributes_text(entries: Seq<Entry>) -> Seq<char>
    decreases entries.len(),
{
    if entries.len() == 0 {
        Seq::empty()
    } else {
        attributes_text(entries.drop_last()) + attribute_text(
            entries.last().0,
            entries.last().1,
        )
    }
}

/// Whether the names of the entries strictly increase.
pub open spec fn ordered(entries: Seq<Entry>) -> bool {
    forall|i: int, j: int|
        0 <= i < j < entries.len() ==> precedes(#[trigger] entries[i].0, #[trigger] entries[j].0)
}

/// How many entries at the front have a name that precedes `name`.
pub open spec fn rank(entries: Seq<Entry>, name: Seq<char>) -> int
    decreases entries.len(),
{
    if entries.len() > 0 && precedes(entries[0].0, name) {
        1 + rank(entries.drop_first(), name)
    } else {
        0
    }
}

/// The entries after `name` was set to `value`: where the name is present
/// its value is replaced, and else the new entry goes where the order of
/// names puts it.
pub open spec fn inserted(entries: Seq<Entry>, name: Seq<char>, value: AttributeValueView) -> Seq<
    Entry,
> {
    let at = rank(entries, name);
    if at < entries.len() && entries[at].0 == name {
        entries.update(at, (name, value))
    } else {
        entries.insert(at, (name, value))
    }
}

/// What each name maps to, where later entries overwrite earlier ones.
pub open spec fn contents(entries: Seq<Entry>) -> Map<Seq<char>, AttributeValueView>
    decreases entries.len(),
{
    if entries.len() == 0 {
        Map::empty()
    } else {
        contents(entries.drop_last()).insert(entries.last().0, entries.last().1)
    }
}

/// The rank of a name is a position of the sequence, all names before it
/// precede the name, and the name at it (if any) does not.
pub proof fn rank_splits(entries: Seq<Entry>, name: Seq<char>)
    ensures
        0 <= rank(entries, name) <= entries.len(),
        forall|i: int| 0 <= i < rank(entries, name) ==> precedes(#[trigger] entries[i].0, name),
        rank(entries, name) < entries.len() ==> !precedes(entries[rank(entries, name)].0, name),
    decreases entries.len(),
{
    if entries.len() > 0 && precedes(entries[0].0, name) {
        let rest = entries.drop_first();
        rank_splits(rest, name);
        assert forall|i: int| 0 <= i < rank(entries, name) implies precedes(
            #[trigger] entries[i].0,
            name,
        ) by {
            if i > 0 {
                assert(entries[i] == rest[i - 1]);
            }
        }
        if rank(entries, name) < entries.len() {
            assert(entries[rank(entries, name)] == rest[rank(rest, name)]);
        }
    }
}

/// Setting a name keeps the names in order.
pub proof fn inserted_is_ordered(entries: Seq<Entry>, name: Seq<char>, value: AttributeValueView)
    requires
        ordered(entries),
    ensures
        ordered(inserted(entries, name, value)),
{
    rank_splits(entries, name);
    let at = rank(entries, name);
    let out = inserted(entries, name, value);
    if at < entries.len() && entries[at].0 == name {
        assert forall|i: int, j: int| 0 <= i < j < out.len() implies precedes(
            #[trigger] out[i].0,
            #[trigger] out[j].0,
        ) by {
            assert(out[i].0 == entries[i].0);
            assert(out[j].0 == entries[j].0);
        }
    } else {
        assert forall|i: int, j: int| 0 <= i < j < out.len() implies precedes(
            #[trigger] out[i].0,
            #[trigger] out[j].0,
        ) by {
            if j < at {
                assert(out[i] == entries[i] && out[j] == entries[j]);
            } else if j == at {
                assert(out[i] == entries[i]);
            } else if i < at {
                assert(out[i] == entries[i] && out[j] == entries[j - 1]);
            } else if i == at {
                assert(out[j] == entries[j - 1]);
                if !precedes(name, entries[at].0) {
                    precedes_is_total(name, entries[at].0);
                }
                if j - 1 > at {
                    assert(precedes(entries[at].0, entries[j - 1].0));
                    precedes_is_transitive(name, entries[at].0, entries[j - 1].0);
                }
            } else {
                assert(out[i] == entries[i - 1] && out[j] == entries[j - 1]);
            }
        }
    }
}

/// A name is among the names that are mapped exactly if an entry has it.
pub proof fn contents_has(entries: Seq<Entry>, name: Seq<char>)
    ensures
        contents(entries).dom().contains(name) <==> exists|i: int|
            0 <= i < entries.len() && #[trigger] entries[i].0 == name,
    decreases entries.len(),
{
    if entries.len() > 0 {
        let front = entries.drop_last();
        contents_has(front, name);
        if contents(entries).dom().contains(name) {
            if entries.last().0 == name {
                assert(entries[entries.len() - 1].0 == name);
            } else {
                let i = choose|i: int| 0 <= i < front.len() && #[trigger] front[i].0 == name;
                assert(entries[i].0 == name);
            }
        }
        if exists|i: int| 0 <= i < entries.len() && #[trigger] entries[i].0 == name {
            let i = choose|i: int| 0 <= i < entries.len() && #[trigger] entries[i].0 == name;
            if i < front.len() {
                assert(front[i].0 == name);
            }
        }
    }
}

/// In a map that is in order, each name is mapped to the value that stands
/// beside it.
pub proof fn contents_at(entries: Seq<Entry>, i: int)
    requires
        ordered(entries),
        0 <= i < entries.len(),
    ensures
        contents(entries).dom().contains(entries[i].0),
        contents(entries)[entries[i].0] == entries[i].1,
    decreases entries.len(),
{
    let front = entries.drop_last();
    if i < entries.len() - 1 {
        assert(front[i] == entries[i]);
        assert(ordered(front)) by {
            assert forall|a: int, b: int| 0 <= a < b < front.len() implies precedes(
                #[trigger] front[a].0,
                #[trigger] front[b].0,
            ) by {
                assert(front[a] == entries[a] && front[b] == entries[b]);
            }
        }
        contents_at(front, i);
        assert(precedes(entries[i].0, entries[entries.len() - 1].0));
        crate::text::precedes_is_strict(entries[i].0, entries.last().0);
    }
}

/// Setting a name in a map that is in order maps the name to the value and
/// leaves every other name as it was.
pub proof fn inserted_sets_contents(
    entries: Seq<Entry>,
    name: Seq<char>,
    value: AttributeValueView,
)
    requires
        ordered(entries),
    ensures
        contents(inserted(entries, name, value)) == contents(entries).insert(name, value),
{
    rank_splits(entries, name);
    inserted_is_ordered(entries, name, value);
    let at = rank(entries, name);
    let out = inserted(entries, name, value);
    let replaced = at < entries.len() && entries[at].0 == name;
    let left = contents(out);
    let right = contents(entries).insert(name, value);
    assert(out[at] == (name, value));
    contents_at(out, at);
    assert forall|k: Seq<char>| left.dom().contains(k) <==> right.dom().contains(k) by {
        contents_has(out, k);
        contents_has(entries, k);
        if left.dom().contains(k) && k != name {
            let j = choose|j: int| 0 <= j < out.len() && #[trigger] out[j].0 == k;
            if replaced {
                assert(entries[j].0 == k);
            } else if j < at {
                assert(entries[j].0 == k);
            } else {
                assert(entries[j - 1].0 == k);
            }
        }
        if right.dom().contains(k) && k != name {
            let i = choose|i: int| 0 <= i < entries.len() && #[trigger] entries[i].0 == k;
            if replaced {
                assert(out[i].0 == k);
            } else if i < at {
                assert(out[i].0 == k);
            } else {
                assert(out[i + 1].0 == k);
            }
        }
        if k == name {
            assert(out[at].0 == k);
        }
    }
    assert forall|k: Seq<char>| left.dom().contains(k) implies #[trigger] left[k] == right[k] by {
        contents_has(out, k);
        contents_has(entries, k);
        if k != name {
            let j = choose|j: int| 0 <= j < out.len() && #[trigger] out[j].0 == k;
            contents_at(out, j);
            if replaced || j < at {
                assert(entries[j] == out[j]);
                contents_at(entries, j);
            } else {
                assert(entries[j - 1] == out[j]);
                contents_at(entries, j - 1);
            }
        }
    }
    assert(left =~= right);
}

/// The attributes of a host element, kept in the order of their names, each
/// name once.
#[derive(Debug)]
pub struct AttributeMap {
    entries: Vec<(String, AttributeValue)>,
}

/// The entries of a vector of attributes as mathematical values.
pub open spec fn entries_of(v: Seq<(String, AttributeValue)>) -> Seq<Entry> {
    Seq::new(v.len(), |i: int| (v[i].0@, v[i].1@))
}

impl View for AttributeMap {
    type V = Seq<Entry>;

    closed spec fn view(&self) -> Seq<Entry> {
        entries_of(self.entries@)
    }
}

impl AttributeMap {
    /// Whether the map is in order, as every map built by `new` and `insert`
    /// is.
    pub open spec fn wf(&self) -> bool {
        ordered(self@)
    }

    /// A map without attributes.
    pub fn new() -> (r: AttributeMap)
        ensures
            r@ == Seq::<Entry>::empty(),
            r.wf(),
    {
        let r = AttributeMap { entries: Vec::new() };
        assert(r@ =~= Seq::<Entry>::empty());
        r
    }

    /// The number of attributes.
    pub fn len(&self) -> (n: usize)
        ensures
            n == self@.len(),
    {
        self.entries.len()
    }

    /// The name of the attribute at position `i`.
    pub fn name_at(&self, i: usize) -> (r: &String)
        requires
            i < self@.len(),
        ensures
            r@ == self@[i as int].0,
    {
        &self.entries[i].0
    }

    /// The value of the attribute at position `i`.
    pub fn value_at(&self, i: usize) -> (r: &AttributeValue)
        requires
            i < self@.len(),
        ensures
            r@ == self@[i as int].1,
    {
        &self.entries[i].1
    }

    /// Sets `name` to `value`. A value that the name had before is
    /// overwritten.
    pub fn insert(&mut self, name: String, value: AttributeValue)
        requires
            old(self).wf(),
        ensures
            final(self)@ == inserted(old(self)@, name@, value@),
            final(self).wf(),
    {
        let ghost before = self@;
        let mut i: usize = 0;
        assert(before.skip(0) =~= before);
        while i < self.entries.len() && comes_before(self.entries[i].0.as_str(), name.as_str())
            invariant
                i <= self.entries.len(),
                self@ == before,
                rank(before, name@) == i + rank(before.skip(i as int), name@),
            decreases self.entries.len() - i,
        {
            assert(before.skip(i as int)[0] == before[i as int]);
            assert(before.skip(i as int).drop_first() =~= before.skip(i + 1));
            i += 1;
        }
        proof {
            if i < before.len() {
                assert(before.skip(i as int)[0] == before[i as int]);
            }
            assert(rank(before, name@) == i);
            inserted_is_ordered(before, name@, value@);
        }
        if i < self.entries.len() && same_text(self.entries[i].0.as_str(), name.as_str()) {
            self.entries[i] = (name, value);
            assert(self@ =~= inserted(before, name@, value@));
        } else {
            self.entries.insert(i, (name, value));
            assert(self@ =~= inserted(before, name@, value@));
        }
    }

    /// Writes the attributes, in the order of their names.
    pub fn render<W: Write>(&self, w: &mut W) -> (r: Result<(), WriteError>)
        ensures
            r is Ok ==> final(w).written() == old(w).written() + attributes_text(self@),
            old(w).reliable() ==> r is Ok && final(w).reliable(),
    {
        let mut i: usize = 0;
        assert(self@.take(0) =~= Seq::<Entry>::empty());
        assert(w.written() =~= old(w).written() + attributes_text(self@.take(0)));
        while i < self.entries.len()
            invariant
                i <= self.entries.len(),
                w.written() == old(w).written() + attributes_text(self@.take(i as int)),
                old(w).reliable() ==> w.reliable(),
            decreases self.entries.len() - i,
        {
            let ghost so_far = w.written();
            proof {
                assert(self@.take(i + 1).drop_last() =~= self@.take(i as int));
                assert(self@.take(i + 1).last() == self@[i as int]);
            }
            write_attribute(self.entries[i].0.as_str(), &self.entries[i].1, w)?;
            assert(w.written() =~= old(w).written() + attributes_text(self@.take(i + 1)));
            i += 1;
        }
        assert(self@.take(i as int) =~= self@);
        Ok(())
    }
}

/// Writes one attribute.
pub fn write_attribute<W: Write>(name: &str, value: &AttributeValue, w: &mut W) -> (r: Result<
    (),
    WriteError,
>)
    ensures
        r is Ok ==> final(w).written() == old(w).written() + attribute_text(name@, value@),
        old(w).reliable() ==> r is Ok && final(w).reliable(),
{
    proof {
        reveal_strlit(" ");
        reveal_strlit("=\"");
        reveal_strlit("\"");
        assert(" "@ =~= seq![' ']);
        assert("=\""@ =~= seq!['=', '"']);
        assert("\""@ =~= seq!['"']);
    }
    match value {
        AttributeValue::Bool(b) => {
            if *b {
                w.write_str(" ")?;
                w.write_str(name)?;
                assert(w.written() =~= old(w).written() + attribute_text(name@, value@));
            } else {
                assert(w.written() =~= old(w).written() + attribute_text(name@, value@));
            }
        },
        AttributeValue::Str(s) => {
            w.write_str(" ")?;
            w.write_str(name)?;
            w.write_str("=\"")?;
            w.write_str(s.as_str())?;
            w.write_str("\"")?;
            assert(w.written() =~= old(w).written() + attribute_text(name@, value@));
        },
        AttributeValue::Escaped(s) => {
            let safe = escape_attr(s.as_str());
            w.write_str(" ")?;
            w.write_str(name)?;
            w.write_str("=\"")?;
            w.write_str(safe.as_str())?;
            w.write_str("\"")?;
            assert(w.written() =~= old(w).written() + attribute_text(name@, value@));
        },
    }
    Ok(())
}

/// The opening tag of a host element: `<`, the tag, the attributes, `>`.
pub open spec fn opening_text(tag: Seq<char>, attributes: Seq<Entry>) -> Seq<char> {
    seq!['<'] + tag + attributes_text(attributes) + seq!['>']
}

/// The closing tag of a host element: `</`, the tag, `>`.
pub open spec fn closing_text(tag: Seq<char>) -> Seq<char> {
    seq!['<', '/'] + tag + seq!['>']
}

/// The text of an element around the text of its children. A fragment adds
/// nothing of its own.
pub open spec fn element_text(
    is_fragment: bool,
    tag: Seq<char>,
    attributes: Seq<Entry>,
    children: Seq<char>,
) -> Seq<char> {
    if is_fragment {
        children
    } else {
        opening_text(tag, attributes) + children + closing_text(tag)
    }
}

/// Writes the opening tag of a host element.
pub fn write_opening<W: Write>(tag: &str, attributes: &AttributeMap, w: &mut W) -> (r: Result<
    (),
    WriteError,
>)
    ensures
        r is Ok ==> final(w).written() == old(w).written() + opening_text(tag@, attributes@),
        old(w).reliable() ==> r is Ok && final(w).reliable(),
{
    proof {
        reveal_strlit("<");
        reveal_strlit(">");
        assert("<"@ =~= seq!['<']);
        assert(">"@ =~= seq!['>']);
    }
    w.write_str("<")?;
    w.write_str(tag)?;
    attributes.render(w)?;
    w.write_str(">")?;
    assert(w.written() =~= old(w).written() + opening_text(tag@, attributes@));
    Ok(())
}

/// Writes the closing tag of a host element.
pub fn write_closing<W: Write>(tag: &str, w: &mut W) -> (r: Result<(), WriteError>)
    ensures
        r is Ok ==> final(w).written() == old(w).written() + closing_text(tag@),
        old(w).reliable() ==> r is Ok && final(w).reliable(),
{
    proof {
        reveal_strlit("</");
        reveal_strlit(">");
        assert("</"@ =~= seq!['<', '/']);
        assert(">"@ =~= seq!['>']);
    }
    w.write_str("</")?;
    w.write_str(tag)?;
    w.write_str(">")?;
    assert(w.written() =~= old(w).written() + closing_text(tag@));
    Ok(())
}

/// A host element: a generic markup tag with attributes and children, or a
/// fragment, which renders only its children.
#[derive(Debug)]
pub struct Element<T> {
    pub is_fragment: bool,
    pub tag: String,
    pub attributes: AttributeMap,
    pub children: Option<T>,
    /// A name under which the element is registered when it is rendered
    /// into a live document, and the value of the attribute that marks it.
    pub reff: Option<(String, String)>,
}

/// The text of optional children: nothing where there are none.
pub open spec fn children_text<T: Render>(children: Option<T>) -> Seq<char> {
    match children {
        Some(c) => c.rendered(),
        None => Seq::empty(),
    }
}

impl<T: Render> Render for Element<T> {
    open spec fn rendered(&self) -> Seq<char> {
        element_text(self.is_fragment, self.tag@, self.attributes@, children_text(self.children))
    }

    fn render<W: Write>(&self, w: &mut W) -> (r: Result<(), WriteError>) {
        if self.is_fragment {
            match &self.children {
                Some(c) => {
                    c.render(w)?;
                },
                None => {},
            }
            assert(w.written() =~= old(w).written() + self.rendered());
        } else {
            write_opening(self.tag.as_str(), &self.attributes, w)?;
            match &self.children {
                Some(c) => {
                    c.render(w)?;
                },
                None => {},
            }
            write_closing(self.tag.as_str(), w)?;
            assert(w.written() =~= old(w).written() + self.rendered());
        }
        Ok(())
    }
}

} // verus!
