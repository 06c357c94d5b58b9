//! What holds of parsing, building and rendering taken together.

use vstd::prelude::*;
use crate::attributes::host_form;
use crate::compile::{compiled_element, compiled_nodes, compiled_tuples, ScopeView};
use crate::component::{is_custom, Components};
use crate::composite::{
    composite_text,
    encoded,
    encoded_renders_in_order,
    texts,
    CompositeView,
    HostView,
};
use crate::element::{
    closing_tag_at,
    element_at,
    fragment_name,
    nodes_at,
    opening_tag_at,
    ElementView,
    NodeView,
};
use crate::error::ParseErrorView;
use crate::escape::escaped;
use crate::markup::{
    attribute_text,
    children_text,
    closing_text,
    opening_text,
    AttributeValueView,
    Element,
    Entry,
};
use crate::render::Render;
use crate::template::tree_of;
use crate::token::TokenView;

verus! {

/// An escaped attribute is written with its value in escaped form between
/// the quotes, and a plain one with its value as it is.
pub proof fn quoted_attribute_text(name: Seq<char>, value: Seq<char>)
    ensures
        attribute_text(name, AttributeValueView::Escaped(value)) == seq![' '] + name + seq![
            '=',
            '"',
        ] + escaped(value) + seq!['"'],
        attribute_text(name, AttributeValueView::Str(value)) == seq![' '] + name + seq!['=', '"']
            + value + seq!['"'],
{
}

/// A flag that is true is written as a space and its bare name, and a flag
/// that is false is not written at all.
pub proof fn flag_attribute_text(name: Seq<char>)
    ensures
        attribute_text(name, AttributeValueView::Bool(true)) == seq![' '] + name,
        attribute_text(name, AttributeValueView::Bool(false)) == Seq::<char>::empty(),
{
}

/// A fragment renders exactly as its children do by themselves, and as
/// nothing where it has none.
pub proof fn fragment_is_transparent<T: Render>(e: Element<T>)
    requires
        e.is_fragment,
    ensures
        e.rendered() == children_text(e.children),
        e.children is None ==> e.rendered() == Seq::<char>::empty(),
{
}

/// A fragment around packed nodes renders to the texts of the nodes, one
/// after the other, however many there are.
pub proof fn fragment_renders_nodes(
    tag: Seq<char>,
    attributes: Seq<Entry>,
    items: Seq<CompositeView>,
)
    ensures
        composite_text(
            CompositeView::Element(
                Box::new(
                    HostView {
                        is_fragment: true,
                        tag,
                        attributes,
                        children: Some(encoded(items)),
                        reff: None,
                    },
                ),
            ),
        ) == texts(items),
{
    encoded_renders_in_order(items);
}

/// An element that is no fragment and has no children renders as its
/// opening tag followed at once by its closing tag.
pub proof fn childless_element_text<T: Render>(e: Element<T>)
    requires
        !e.is_fragment,
        e.children is None,
    ensures
        e.rendered() == opening_text(e.tag@, e.attributes@) + closing_text(e.tag@),
{
    assert(opening_text(e.tag@, e.attributes@) + Seq::<char>::empty() + closing_text(e.tag@)
        =~= opening_text(e.tag@, e.attributes@) + closing_text(e.tag@));
}

/// An element that closes itself has no children, and its parse ends with
/// its opening tag.
pub proof fn self_closing_has_no_children(t: Seq<TokenView>, pos: int)
    ensures
        match element_at(t, pos) {
            Ok((e, next)) => e.tag.self_closing ==> e.children is None && opening_tag_at(t, pos)
                == Ok::<_, ParseErrorView>((e.tag, next)),
            Err(_) => true,
        },
{
}

/// A parsed element never has an empty sequence of children: it has
/// children, or none.
pub proof fn children_are_never_empty(t: Seq<TokenView>, pos: int)
    ensures
        match element_at(t, pos) {
            Ok((e, _)) => match e.children {
                Some(nodes) => nodes.len() > 0,
                None => true,
            },
            Err(_) => true,
        },
{
}

/// A host element that closes itself, and whose name is not the one that
/// stands for a fragment, is built into an element that renders as its
/// opening tag followed at once by its closing tag.
pub proof fn self_closing_renders_empty_body<C: Components>(
    t: Seq<TokenView>,
    pos: int,
    scope: ScopeView,
    components: &C,
)
    ensures
        match element_at(t, pos) {
            Ok((e, _)) => e.tag.self_closing && !is_custom(e.tag.name) && e.tag.name
                != fragment_name() ==> match (
                compiled_element(e, scope, components),
                host_form(e.tag.attributes, scope),
            ) {
                (Ok(c), Ok(attributes)) => composite_text(c) == opening_text(
                    e.tag.name,
                    attributes,
                ) + closing_text(e.tag.name),
                (Ok(_), Err(_)) => false,
                (Err(_), _) => true,
            },
            Err(_) => true,
        },
{
    match element_at(t, pos) {
        Ok((e, _)) => {
            if e.tag.self_closing && !is_custom(e.tag.name) && e.tag.name != fragment_name() {
                match host_form(e.tag.attributes, scope) {
                    Ok(attributes) => {
                        assert(opening_text(e.tag.name, attributes) + Seq::<char>::empty()
                            + closing_text(e.tag.name) =~= opening_text(e.tag.name, attributes)
                            + closing_text(e.tag.name));
                    },
                    Err(_) => {},
                }
            }
        },
        Err(_) => {},
    }
}

/// A closing tag that names another element than the one that is open is
/// an error, which gives the position and the name of the opening tag and
/// the name that was found.
pub proof fn mismatched_closing_tag_is_an_error(t: Seq<TokenView>, pos: int)
    ensures
        match opening_tag_at(t, pos) {
            Ok((tag, after)) => !tag.self_closing ==> match nodes_at(t, after) {
                Ok((_, inner)) => match closing_tag_at(t, inner) {
                    Ok((name, _)) => name != tag.name ==> element_at(t, pos) == Err::<
                        (ElementView, int),
                        _,
                    >(ParseErrorView::Mismatch { position: pos, expected: tag.name, found: name }),
                    Err(_) => true,
                },
                Err(_) => true,
            },
            Err(_) => true,
        },
{
}

/// Nodes that are built as a whole render to the texts of the built nodes,
/// one after the other, with nothing added.
pub proof fn tuples_render_in_order<C: Components>(
    nodes: Seq<NodeView>,
    scope: ScopeView,
    components: &C,
)
    ensures
        match (
            compiled_tuples(nodes, scope, components),
            compiled_nodes(nodes, nodes.len(), scope, components),
        ) {
            (Ok(c), Ok(items)) => composite_text(c) == texts(items),
            (Ok(_), Err(_)) => false,
            (Err(_), Ok(_)) => false,
            (Err(_), Err(_)) => true,
        },
{
    match compiled_nodes(nodes, nodes.len(), scope, components) {
        Ok(items) => {
            encoded_renders_in_order(items);
        },
        Err(_) => {},
    }
}

/// Markup with several roots renders to the texts of its roots, one after
/// the other, with no markup around them.
pub proof fn roots_render_in_order<C: Components>(
    t: Seq<TokenView>,
    scope: ScopeView,
    components: &C,
)
    ensures
        match tree_of(t, scope, components) {
            Ok(c) => match nodes_at(t, 0) {
                Ok((nodes, _)) => match compiled_nodes(nodes, nodes.len(), scope, components) {
                    Ok(items) => composite_text(c) == texts(items),
                    Err(_) => false,
                },
                Err(_) => false,
            },
            Err(_) => true,
        },
{
    match nodes_at(t, 0) {
        Ok((nodes, _)) => {
            tuples_render_in_order(nodes, scope, components);
        },
        Err(_) => {},
    }
}

} // verus!
