//! The written form of a parsed tree, and the law that ties the parser to
//! it: what was parsed, written out again, is the input that was read.

use vstd::prelude::*;
use crate::attributes::{
    attribute_at,
    attributes_at,
    attributes_at_advances,
    attributes_end,
    kind_at,
    name_at,
    name_rest,
    name_rest_advances,
    AttributeType,
    AttributeView,
};
use crate::element::{
    children_end,
    closing_tag_at,
    element_at,
    fragment_name,
    node_at,
    nodes_at,
    opening_tag_at,
    opening_tag_at_advances,
    ElementView,
    NodeView,
    OpeningTagView,
};
use crate::token::{block_at, ident_at, is_punct, Punct, TokenView};

verus! {

/// A punctuation mark as a sequence of one token.
pub open spec fn mark(p: Punct) -> Seq<TokenView> {
    seq![TokenView::Punct(p)]
}

/// The written form of the segments that follow the first one: each after
/// a dash.
pub open spec fn rest_tokens(rest: Seq<Seq<char>>) -> Seq<TokenView>
    decreases rest.len(),
{
    if rest.len() == 0 {
        Seq::empty()
    } else {
        mark(Punct::Minus) + seq![TokenView::Ident(rest[0])] + rest_tokens(rest.drop_first())
    }
}

/// The written form of a name: its segments with a dash between each two.
pub open spec fn name_tokens(name: Seq<Seq<char>>) -> Seq<TokenView> {
    if name.len() == 0 {
        Seq::empty()
    } else {
        seq![TokenView::Ident(name[0])] + rest_tokens(name.drop_first())
    }
}

/// The marker that chooses a kind: `?`, `&`, or none.
pub open spec fn marker_tokens(kind: AttributeType) -> Seq<TokenView> {
    match kind {
        AttributeType::Bool => mark(Punct::Question),
        AttributeType::String => mark(Punct::Amp),
        AttributeType::Str => Seq::empty(),
    }
}

/// The written form of an attribute: marker, name, and `=` with the block
/// where it has one.
pub open spec fn attribute_tokens(a: AttributeView) -> Seq<TokenView> {
    marker_tokens(a.attr_type) + name_tokens(a.name) + match a.value {
        Some(b) => mark(Punct::Eq) + seq![TokenView::Block(b)],
        None => Seq::empty(),
    }
}

/// The written form of a list of attributes: one after the other.
pub open spec fn attributes_tokens(s: Seq<AttributeView>) -> Seq<TokenView>
    decreases s.len(),
{
    if s.len() == 0 {
        Seq::empty()
    } else {
        attribute_tokens(s[0]) + attributes_tokens(s.drop_first())
    }
}

/// The written form of an opening tag; that of a fragment is `<>`.
pub open spec fn opening_tokens(tag: OpeningTagView) -> Seq<TokenView> {
    if tag.name == fragment_name() {
        mark(Punct::Lt) + mark(Punct::Gt)
    } else {
        mark(Punct::Lt) + seq![TokenView::Ident(tag.name)] + attributes_tokens(tag.attributes)
            + (if tag.self_closing {
            mark(Punct::Slash)
        } else {
            Seq::empty()
        }) + mark(Punct::Gt)
    }
}

/// The written form of a closing tag; that of a fragment is `</>`.
pub open spec fn closing_tokens(name: Seq<char>) -> Seq<TokenView> {
    if name == fragment_name() {
        mark(Punct::Lt) + mark(Punct::Slash) + mark(Punct::Gt)
    } else {
        mark(Punct::Lt) + mark(Punct::Slash) + seq![TokenView::Ident(name)] + mark(Punct::Gt)
    }
}

/// The written form of an element: its opening tag, and, unless that
/// closes itself, its children and its closing tag.
pub open spec fn element_tokens(e: ElementView) -> Seq<TokenView>
    decreases e, 0nat,
{
    if e.tag.self_closing {
        opening_tokens(e.tag)
    } else {
        opening_tokens(e.tag) + (match e.children {
            Some(nodes) => nodes_tokens(nodes),
            None => Seq::empty(),
        }) + closing_tokens(e.tag.name)
    }
}

/// The written form of a node.
pub open spec fn node_tokens(n: NodeView) -> Seq<TokenView>
    decreases n, 0nat,
{
    match n {
        NodeView::Element(e) => element_tokens(*e),
        NodeView::Block(b) => seq![TokenView::Block(b)],
    }
}

/// The written form of a sequence of nodes: one after the other.
pub open spec fn nodes_tokens(s: Seq<NodeView>) -> Seq<TokenView>
    decreases s, s.len(),
{
    if s.len() == 0 {
        Seq::empty()
    } else {
        node_tokens(s[0]) + nodes_tokens(s.drop_first())
    }
}

/// Whether no tag of the input is written with the name that stands for
/// the empty tag of a fragment.
pub open spec fn plain(t: Seq<TokenView>) -> bool {
    forall|i: int|
        0 < i < t.len() && (t[i - 1] == TokenView::Punct(Punct::Lt) || t[i - 1]
            == TokenView::Punct(Punct::Slash)) ==> #[trigger] t[i] != TokenView::Ident(
            fragment_name(),
        )
}

/// The segments of a name after the first, written out, are the tokens
/// that they were parsed from.
pub proof fn name_rest_is_written(t: Seq<TokenView>, pos: int)
    requires
        0 <= pos <= t.len(),
    ensures
        match name_rest(t, pos) {
            Ok((rest, next)) => pos <= next <= t.len() && rest_tokens(rest) == t.subrange(
                pos,
                next,
            ),
            Err(_) => true,
        },
    decreases t.len() - pos,
{
    name_rest_advances(t, pos);
    if is_punct(t, pos, Punct::Minus) {
        match ident_at(t, pos + 1) {
            Some(s) => {
                name_rest_is_written(t, pos + 2);
                name_rest_advances(t, pos + 2);
                match name_rest(t, pos + 2) {
                    Ok((tail, next)) => {
                        let rest = seq![s] + tail;
                        assert(rest.drop_first() =~= tail);
                        assert(rest_tokens(rest) =~= t.subrange(pos, next));
                    },
                    Err(_) => {},
                }
            },
            None => {},
        }
    } else {
        assert(t.subrange(pos, pos) =~= Seq::<TokenView>::empty());
    }
}

/// A name, written out, is the tokens that it was parsed from.
pub proof fn name_is_written(t: Seq<TokenView>, pos: int)
    requires
        0 <= pos,
    ensures
        match name_at(t, pos) {
            Ok((name, next)) => pos < next <= t.len() && name.len() > 0 && name_tokens(name)
                == t.subrange(pos, next),
            Err(_) => true,
        },
{
    match ident_at(t, pos) {
        Some(s) => {
            name_rest_is_written(t, pos + 1);
            match name_rest(t, pos + 1) {
                Ok((tail, next)) => {
                    let name = seq![s] + tail;
                    assert(name.drop_first() =~= tail);
                    assert(name_tokens(name) =~= t.subrange(pos, next));
                },
                Err(_) => {},
            }
        },
        None => {},
    }
}

/// An attribute, written out, is the tokens that it was parsed from.
pub proof fn attribute_is_written(t: Seq<TokenView>, pos: int)
    requires
        0 <= pos,
    ensures
        match attribute_at(t, pos) {
            Ok((a, next)) => pos < next <= t.len() && attribute_tokens(a) == t.subrange(
                pos,
                next,
            ),
            Err(_) => true,
        },
{
    let kind = kind_at(t, pos);
    let start = if kind == AttributeType::Str {
        pos
    } else {
        pos + 1
    };
    name_is_written(t, start);
    match name_at(t, start) {
        Ok((name, after)) => {
            assert(marker_tokens(kind) =~= t.subrange(pos, start));
            if is_punct(t, after, Punct::Eq) {
                match block_at(t, after + 1) {
                    Some(b) => {
                        let a = AttributeView { name, attr_type: kind, value: Some(b) };
                        assert(attribute_tokens(a) =~= t.subrange(pos, after + 2));
                    },
                    None => {},
                }
            } else {
                let a = AttributeView { name, attr_type: kind, value: None };
                assert(attribute_tokens(a) =~= t.subrange(pos, after));
            }
        },
        Err(_) => {},
    }
}

/// A list of attributes, written out, is the tokens that it was parsed
/// from.
pub proof fn attributes_are_written(t: Seq<TokenView>, pos: int)
    requires
        0 <= pos,
    ensures
        match attributes_at(t, pos) {
            Ok((list, next)) => pos <= next < t.len() && attributes_tokens(list) == t.subrange(
                pos,
                next,
            ),
            Err(_) => true,
        },
    decreases t.len() - pos,
{
    attributes_at_advances(t, pos);
    if attributes_end(t, pos) {
        assert(t.subrange(pos, pos) =~= Seq::<TokenView>::empty());
    } else {
        attribute_is_written(t, pos);
        match attribute_at(t, pos) {
            Ok((a, after)) => {
                attributes_are_written(t, after);
                attributes_at_advances(t, after);
                match attributes_at(t, after) {
                    Ok((tail, next)) => {
                        let list = seq![a] + tail;
                        assert(list.drop_first() =~= tail);
                        assert(attributes_tokens(list) =~= t.subrange(pos, next));
                    },
                    Err(_) => {},
                }
            },
            Err(_) => {},
        }
    }
}

/// An opening tag, written out, is the tokens that it was parsed from,
/// unless it is written with the name that stands for a fragment.
pub proof fn opening_tag_is_written(t: Seq<TokenView>, pos: int)
    requires
        plain(t),
    ensures
        match opening_tag_at(t, pos) {
            Ok((tag, next)) => 0 <= pos && pos + 2 <= next <= t.len() && opening_tokens(tag)
                == t.subrange(pos, next),
            Err(_) => true,
        },
{
    opening_tag_at_advances(t, pos);
    if is_punct(t, pos, Punct::Lt) {
        if is_punct(t, pos + 1, Punct::Gt) {
            assert(mark(Punct::Lt) + mark(Punct::Gt) =~= t.subrange(pos, pos + 2));
        } else {
            match ident_at(t, pos + 1) {
                Some(name) => {
                    assert(t[pos + 1] != TokenView::Ident(fragment_name()));
                    attributes_are_written(t, pos + 2);
                    match attributes_at(t, pos + 2) {
                        Ok((attributes, after)) => {
                            let self_closing = is_punct(t, after, Punct::Slash);
                            let end = if self_closing {
                                after + 1
                            } else {
                                after
                            };
                            if is_punct(t, end, Punct::Gt) {
                                let tag = OpeningTagView { name, self_closing, attributes };
                                assert(opening_tokens(tag) =~= t.subrange(pos, end + 1));
                            }
                        },
                        Err(_) => {},
                    }
                },
                None => {},
            }
        }
    }
}

/// A closing tag, written out, is the tokens that it was parsed from,
/// unless it is written with the name that stands for a fragment.
pub proof fn closing_tag_is_written(t: Seq<TokenView>, pos: int)
    requires
        plain(t),
    ensures
        match closing_tag_at(t, pos) {
            Ok((name, next)) => 0 <= pos < next <= t.len() && closing_tokens(name) == t.subrange(
                pos,
                next,
            ),
            Err(_) => true,
        },
{
    if is_punct(t, pos, Punct::Lt) && is_punct(t, pos + 1, Punct::Slash) {
        if is_punct(t, pos + 2, Punct::Gt) {
            assert(closing_tokens(fragment_name()) =~= t.subrange(pos, pos + 3));
        } else {
            match ident_at(t, pos + 2) {
                Some(name) => {
                    assert(t[pos + 2] != TokenView::Ident(fragment_name()));
                    if is_punct(t, pos + 3, Punct::Gt) {
                        assert(closing_tokens(name) =~= t.subrange(pos, pos + 4));
                    }
                },
                None => {},
            }
        }
    }
}

/// A parsed element, written out again, is exactly the tokens that it was
/// parsed from, for any input in which no tag is written with the name
/// that stands for a fragment.
pub proof fn element_is_written(t: Seq<TokenView>, pos: int)
    requires
        plain(t),
    ensures
        match element_at(t, pos) {
            Ok((e, next)) => 0 <= pos < next <= t.len() && element_tokens(e) == t.subrange(
                pos,
                next,
            ),
            Err(_) => true,
        },
    decreases t.len() - pos, 0nat,
{
    opening_tag_is_written(t, pos);
    match opening_tag_at(t, pos) {
        Ok((tag, after)) => {
            if !tag.self_closing {
                nodes_are_written(t, after);
                match nodes_at(t, after) {
                    Ok((nodes, inner)) => {
                        closing_tag_is_written(t, inner);
                        match closing_tag_at(t, inner) {
                            Ok((name, end)) => {
                                if name == tag.name {
                                    let e = ElementView {
                                        tag,
                                        children: if nodes.len() > 0 {
                                            Some(nodes)
                                        } else {
                                            None
                                        },
                                    };
                                    assert(nodes_tokens(nodes) + closing_tokens(name)
                                        =~= t.subrange(after, end));
                                    assert(element_tokens(e) =~= t.subrange(pos, end));
                                }
                            },
                            Err(_) => {},
                        }
                    },
                    Err(_) => {},
                }
            }
        },
        Err(_) => {},
    }
}

/// A parsed node, written out again, is exactly the tokens that it was
/// parsed from.
pub proof fn node_is_written(t: Seq<TokenView>, pos: int)
    requires
        plain(t),
    ensures
        match node_at(t, pos) {
            Ok((n, next)) => 0 <= pos < next <= t.len() && node_tokens(n) == t.subrange(
                pos,
                next,
            ),
            Err(_) => true,
        },
    decreases t.len() - pos, 1nat,
{
    if is_punct(t, pos, Punct::Lt) {
        element_is_written(t, pos);
    } else {
        match block_at(t, pos) {
            Some(b) => {
                assert(seq![TokenView::Block(b)] =~= t.subrange(pos, pos + 1));
            },
            None => {},
        }
    }
}

/// Parsed nodes, written out again, are exactly the tokens that they were
/// parsed from.
pub proof fn nodes_are_written(t: Seq<TokenView>, pos: int)
    requires
        plain(t),
        0 <= pos <= t.len(),
    ensures
        match nodes_at(t, pos) {
            Ok((nodes, next)) => pos <= next <= t.len() && nodes_tokens(nodes) == t.subrange(
                pos,
                next,
            ),
            Err(_) => true,
        },
    decreases t.len() - pos, 2nat,
{
    if children_end(t, pos) {
        assert(t.subrange(pos, pos) =~= Seq::<TokenView>::empty());
    } else {
        node_is_written(t, pos);
        match node_at(t, pos) {
            Ok((n, after)) => {
                nodes_are_written(t, after);
                match nodes_at(t, after) {
                    Ok((tail, next)) => {
                        let nodes = seq![n] + tail;
                        assert(nodes.drop_first() =~= tail);
                        assert(nodes_tokens(nodes) =~= t.subrange(pos, next));
                    },
                    Err(_) => {},
                }
            },
            Err(_) => {},
        }
    }
}

/// Whether the tokens `x` stand in `t` from position `pos` on.
pub open spec fn placed(t: Seq<TokenView>, pos: int, x: Seq<TokenView>) -> bool {
    0 <= pos && pos + x.len() <= t.len() && t.subrange(pos, pos + x.len()) == x
}

/// Tokens that stand in `t` are the tokens of `t` at their positions.
pub proof fn placed_index(t: Seq<TokenView>, pos: int, x: Seq<TokenView>, k: int)
    requires
        placed(t, pos, x),
        0 <= k < x.len(),
    ensures
        t[pos + k] == x[k],
{
    assert(t.subrange(pos, pos + x.len())[k] == t[pos + k]);
}

/// Where two runs of tokens stand one after the other, each stands at its
/// own place.
pub proof fn placed_split(t: Seq<TokenView>, pos: int, a: Seq<TokenView>, b: Seq<TokenView>)
    requires
        placed(t, pos, a + b),
    ensures
        placed(t, pos, a),
        placed(t, pos + a.len(), b),
{
    let whole = t.subrange(pos, pos + (a + b).len());
    assert(t.subrange(pos, pos + a.len()) =~= a) by {
        assert forall|k: int| 0 <= k < a.len() implies t.subrange(pos, pos + a.len())[k]
            == a[k] by {
            assert(whole[k] == t[pos + k]);
            assert((a + b)[k] == a[k]);
        }
    }
    assert(t.subrange(pos + a.len(), pos + a.len() + b.len()) =~= b) by {
        assert forall|k: int| 0 <= k < b.len() implies t.subrange(
            pos + a.len(),
            pos + a.len() + b.len(),
        )[k] == b[k] by {
            assert(whole[a.len() + k] == t[pos + a.len() + k]);
            assert((a + b)[a.len() + k] == b[k]);
        }
    }
}

/// Whether an element can be written: names of attributes have a segment,
/// the empty tag has no attributes and does not close itself, an element
/// that closes itself has no children, and children are never an empty
/// sequence.
pub open spec fn writable(e: ElementView) -> bool
    decreases e, 0nat,
{
    &&& forall|i: int|
        0 <= i < e.tag.attributes.len() ==> (#[trigger] e.tag.attributes[i]).name.len() > 0
    &&& e.tag.name == fragment_name() ==> e.tag.attributes.len() == 0 && !e.tag.self_closing
    &&& e.tag.self_closing ==> e.children is None
    &&& match e.children {
        Some(nodes) => nodes.len() > 0 && forall|i: int|
            0 <= i < nodes.len() ==> writable_node(#[trigger] nodes[i]),
        None => true,
    }
}

/// Whether a node can be written.
pub open spec fn writable_node(n: NodeView) -> bool
    decreases n, 0nat,
{
    match n {
        NodeView::Element(e) => writable(*e),
        NodeView::Block(_) => true,
    }
}

/// The written segments after the first parse back to themselves, where
/// no dash follows them.
pub proof fn written_rest_parses(t: Seq<TokenView>, pos: int, rest: Seq<Seq<char>>)
    requires
        placed(t, pos, rest_tokens(rest)),
        !is_punct(t, pos + rest_tokens(rest).len(), Punct::Minus),
    ensures
        name_rest(t, pos) == Ok::<_, crate::error::ParseErrorView>(
            (rest, pos + rest_tokens(rest).len()),
        ),
    decreases rest.len(),
{
    if rest.len() > 0 {
        let head = mark(Punct::Minus) + seq![TokenView::Ident(rest[0])];
        let tail = rest.drop_first();
        assert(rest_tokens(rest) == head + rest_tokens(tail));
        placed_split(t, pos, head, rest_tokens(tail));
        placed_index(t, pos, head, 0);
        placed_index(t, pos, head, 1);
        written_rest_parses(t, pos + 2, tail);
        assert(seq![rest[0]] + tail =~= rest);
    } else {
        assert(rest =~= Seq::<Seq<char>>::empty());
    }
}

/// A written name parses back to itself, where no dash follows it.
pub proof fn written_name_parses(t: Seq<TokenView>, pos: int, name: Seq<Seq<char>>)
    requires
        name.len() > 0,
        placed(t, pos, name_tokens(name)),
        !is_punct(t, pos + name_tokens(name).len(), Punct::Minus),
    ensures
        name_at(t, pos) == Ok::<_, crate::error::ParseErrorView>(
            (name, pos + name_tokens(name).len()),
        ),
{
    let head = seq![TokenView::Ident(name[0])];
    let tail = name.drop_first();
    placed_split(t, pos, head, rest_tokens(tail));
    placed_index(t, pos, head, 0);
    written_rest_parses(t, pos + 1, tail);
    assert(seq![name[0]] + tail =~= name);
}

/// Whether the token at `pos` can begin an attribute: a marker or an
/// identifier.
pub open spec fn begins_attribute(t: Seq<TokenView>, pos: int) -> bool {
    is_punct(t, pos, Punct::Question) || is_punct(t, pos, Punct::Amp) || ident_at(t, pos) is Some
}

/// A written attribute begins with a marker or an identifier.
pub proof fn written_attribute_begins(t: Seq<TokenView>, pos: int, a: AttributeView)
    requires
        a.name.len() > 0,
        placed(t, pos, attribute_tokens(a)),
    ensures
        begins_attribute(t, pos),
        attribute_tokens(a).len() > 0,
        kind_at(t, pos) == a.attr_type,
{
    let value = match a.value {
        Some(b) => mark(Punct::Eq) + seq![TokenView::Block(b)],
        None => Seq::empty(),
    };
    let front = marker_tokens(a.attr_type) + name_tokens(a.name);
    placed_split(t, pos, front, value);
    placed_split(t, pos, marker_tokens(a.attr_type), name_tokens(a.name));
    if a.attr_type == AttributeType::Str {
        placed_index(t, pos, name_tokens(a.name), 0);
    } else {
        placed_index(t, pos, marker_tokens(a.attr_type), 0);
    }
}

/// A written attribute parses back to itself, where what follows it
/// neither continues its name nor gives it a value.
pub proof fn written_attribute_parses(t: Seq<TokenView>, pos: int, a: AttributeView)
    requires
        a.name.len() > 0,
        placed(t, pos, attribute_tokens(a)),
        !is_punct(t, pos + attribute_tokens(a).len(), Punct::Minus),
        !is_punct(t, pos + attribute_tokens(a).len(), Punct::Eq),
    ensures
        attribute_at(t, pos) == Ok::<_, crate::error::ParseErrorView>(
            (a, pos + attribute_tokens(a).len()),
        ),
{
    written_attribute_begins(t, pos, a);
    let value = match a.value {
        Some(b) => mark(Punct::Eq) + seq![TokenView::Block(b)],
        None => Seq::empty(),
    };
    let front = marker_tokens(a.attr_type) + name_tokens(a.name);
    placed_split(t, pos, front, value);
    placed_split(t, pos, marker_tokens(a.attr_type), name_tokens(a.name));
    let start = pos + marker_tokens(a.attr_type).len();
    let after = start + name_tokens(a.name).len();
    match a.value {
        Some(b) => {
            placed_index(t, after, value, 0);
            placed_index(t, after, value, 1);
        },
        None => {},
    }
    written_name_parses(t, start, a.name);
}

/// Written attributes parse back to themselves, where the end of the list
/// follows them.
pub proof fn written_attributes_parse(t: Seq<TokenView>, pos: int, s: Seq<AttributeView>)
    requires
        forall|i: int| 0 <= i < s.len() ==> (#[trigger] s[i]).name.len() > 0,
        placed(t, pos, attributes_tokens(s)),
        attributes_end(t, pos + attributes_tokens(s).len()),
    ensures
        attributes_at(t, pos) == Ok::<_, crate::error::ParseErrorView>(
            (s, pos + attributes_tokens(s).len()),
        ),
    decreases s.len(),
{
    if s.len() > 0 {
        let first = attribute_tokens(s[0]);
        let tail = s.drop_first();
        placed_split(t, pos, first, attributes_tokens(tail));
        written_attribute_begins(t, pos, s[0]);
        let mid = pos + first.len();
        assert forall|i: int| 0 <= i < tail.len() implies (#[trigger] tail[i]).name.len() > 0 by {
            assert(tail[i] == s[i + 1]);
        }
        if tail.len() > 0 {
            placed_split(t, mid, attribute_tokens(tail[0]), attributes_tokens(tail.drop_first()));
            written_attribute_begins(t, mid, tail[0]);
        }
        written_attribute_parses(t, pos, s[0]);
        written_attributes_parse(t, mid, tail);
        assert(seq![s[0]] + tail =~= s);
    } else {
        assert(s =~= Seq::<AttributeView>::empty());
    }
}

/// A written opening tag parses back to itself.
pub proof fn written_opening_tag_parses(t: Seq<TokenView>, pos: int, tag: OpeningTagView)
    requires
        forall|i: int|
            0 <= i < tag.attributes.len() ==> (#[trigger] tag.attributes[i]).name.len() > 0,
        tag.name == fragment_name() ==> tag.attributes.len() == 0 && !tag.self_closing,
        placed(t, pos, opening_tokens(tag)),
    ensures
        opening_tokens(tag).len() >= 2,
        opening_tag_at(t, pos) == Ok::<_, crate::error::ParseErrorView>(
            (tag, pos + opening_tokens(tag).len()),
        ),
{
    if tag.name == fragment_name() {
        let x = mark(Punct::Lt) + mark(Punct::Gt);
        placed_index(t, pos, x, 0);
        placed_index(t, pos, x, 1);
        assert(tag.attributes =~= Seq::<AttributeView>::empty());
    } else {
        let head = mark(Punct::Lt) + seq![TokenView::Ident(tag.name)];
        let list = attributes_tokens(tag.attributes);
        let slash = if tag.self_closing {
            mark(Punct::Slash)
        } else {
            Seq::empty()
        };
        let end = mark(Punct::Gt);
        placed_split(t, pos, head + list + slash, end);
        placed_split(t, pos, head + list, slash);
        placed_split(t, pos, head, list);
        placed_index(t, pos, head, 0);
        placed_index(t, pos, head, 1);
        let after = pos + 2 + list.len();
        if tag.self_closing {
            placed_index(t, after, slash, 0);
            placed_index(t, after + 1, end, 0);
        } else {
            placed_index(t, after, end, 0);
        }
        written_attributes_parse(t, pos + 2, tag.attributes);
    }
}

/// A written closing tag parses back to its name.
pub proof fn written_closing_tag_parses(t: Seq<TokenView>, pos: int, name: Seq<char>)
    requires
        placed(t, pos, closing_tokens(name)),
    ensures
        closing_tag_at(t, pos) == Ok::<_, crate::error::ParseErrorView>(
            (name, pos + closing_tokens(name).len()),
        ),
        children_end(t, pos),
{
    let x = closing_tokens(name);
    placed_index(t, pos, x, 0);
    placed_index(t, pos, x, 1);
    placed_index(t, pos, x, 2);
    if name != fragment_name() {
        placed_index(t, pos, x, 3);
    }
}

/// Every element that can be written parses back to itself from its
/// written form, whatever stands before and after it.
pub proof fn written_element_parses(t: Seq<TokenView>, pos: int, e: ElementView)
    requires
        writable(e),
        placed(t, pos, element_tokens(e)),
    ensures
        element_tokens(e).len() >= 2,
        is_punct(t, pos, Punct::Lt),
        !is_punct(t, pos + 1, Punct::Slash),
        element_at(t, pos) == Ok::<_, crate::error::ParseErrorView>(
            (e, pos + element_tokens(e).len()),
        ),
    decreases e, 1nat,
{
    let open = opening_tokens(e.tag);
    if e.tag.self_closing {
        written_opening_tag_parses(t, pos, e.tag);
    } else {
        let nodes = match e.children {
            Some(nodes) => nodes,
            None => Seq::empty(),
        };
        let inner = nodes_tokens(nodes);
        let close = closing_tokens(e.tag.name);
        assert(element_tokens(e) == open + inner + close);
        placed_split(t, pos, open + inner, close);
        placed_split(t, pos, open, inner);
        written_opening_tag_parses(t, pos, e.tag);
        let after = pos + open.len();
        let end = after + inner.len();
        written_closing_tag_parses(t, end, e.tag.name);
        written_nodes_parse(t, after, nodes, e);
        opening_tag_at_advances(t, pos);
    }
    placed_index(t, pos, open, 0);
    placed_index(t, pos, open, 1);
    assert(is_punct(t, pos, Punct::Lt));
}

/// The written children of the element `e` parse back to themselves, where
/// the end of the children follows them.
proof fn written_nodes_parse(t: Seq<TokenView>, pos: int, nodes: Seq<NodeView>, e: ElementView)
    requires
        forall|i: int| 0 <= i < nodes.len() ==> writable_node(#[trigger] nodes[i]),
        forall|i: int| 0 <= i < nodes.len() ==> decreases_to!(e => #[trigger] nodes[i]),
        placed(t, pos, nodes_tokens(nodes)),
        children_end(t, pos + nodes_tokens(nodes).len()),
    ensures
        nodes_at(t, pos) == Ok::<_, crate::error::ParseErrorView>(
            (nodes, pos + nodes_tokens(nodes).len()),
        ),
    decreases e, 0nat, nodes.len(),
{
    if nodes.len() > 0 {
        let first = node_tokens(nodes[0]);
        let tail = nodes.drop_first();
        placed_split(t, pos, first, nodes_tokens(tail));
        let mid = pos + first.len();
        assert forall|i: int| 0 <= i < tail.len() implies writable_node(#[trigger] tail[i])
            && decreases_to!(e => tail[i]) by {
            assert(tail[i] == nodes[i + 1]);
        }
        match nodes[0] {
            NodeView::Element(child) => {
                written_element_parses(t, pos, *child);
                assert(node_at(t, pos) == Ok::<_, crate::error::ParseErrorView>((nodes[0], mid)));
            },
            NodeView::Block(b) => {
                placed_index(t, pos, first, 0);
                assert(node_at(t, pos) == Ok::<_, crate::error::ParseErrorView>((nodes[0], mid)));
            },
        }
        written_nodes_parse(t, mid, tail, e);
        assert(seq![nodes[0]] + tail =~= nodes);
    } else {
        assert(nodes =~= Seq::<NodeView>::empty());
    }
}

/// The written form of an element, taken as the whole input, parses back
/// to the element and leaves nothing over.
pub proof fn written_form_parses_back(e: ElementView)
    requires
        writable(e),
    ensures
        element_at(element_tokens(e), 0) == Ok::<_, crate::error::ParseErrorView>(
            (e, element_tokens(e).len() as int),
        ),
{
    let t = element_tokens(e);
    assert(t.subrange(0, t.len() as int) =~= t);
    written_element_parses(t, 0, e);
}

} // verus!
