//! From tokens to renderable values in one step.

use vstd::prelude::*;
use crate::compile::{compiled_element, compiled_tuples, ScopeView};
use crate::component::Components;
use crate::composite::{Composite, CompositeView};
use crate::element::{element_at, nodes_at, Element, Nodes};
use crate::error::{Error, ErrorView, Expected, ParseErrorView};
use crate::token::{syntax_error, token_views, Token, TokenView};
use crate::value::Scope;

verus! {

/// What markup with one root is built into: the input must be one element
/// and nothing after it.
pub open spec fn html_of<C: Components>(t: Seq<TokenView>, scope: ScopeView, components: &C)
    -> Result<CompositeView, ErrorView> {
    match element_at(t, 0) {
        Err(e) => Err(ErrorView::Parse(e)),
        Ok((element, next)) => if next != t.len() {
            Err(ErrorView::Parse(ParseErrorView::Syntax { position: next, wanted: Expected::End }))
        } else {
            match compiled_element(element, scope, components) {
                Err(x) => Err(ErrorView::Compile(x)),
                Ok(c) => Ok(c),
            }
        },
    }
}

/// What markup with any number of roots is built into: the input must be
/// nodes up to its end, and they are packed into one composite.
pub open spec fn tree_of<C: Components>(t: Seq<TokenView>, scope: ScopeView, components: &C)
    -> Result<CompositeView, ErrorView> {
    match nodes_at(t, 0) {
        Err(e) => Err(ErrorView::Parse(e)),
        Ok((nodes, next)) => if next != t.len() {
            Err(ErrorView::Parse(ParseErrorView::Syntax { position: next, wanted: Expected::End }))
        } else {
            match compiled_tuples(nodes, scope, components) {
                Err(x) => Err(ErrorView::Compile(x)),
                Ok(c) => Ok(c),
            }
        },
    }
}

/// The outcome of a whole run, as mathematical values.
pub open spec fn outcome_of(r: Result<Composite, Error>) -> Result<CompositeView, ErrorView> {
    match r {
        Ok(c) => Ok(c@),
        Err(e) => Err(e@),
    }
}

/// Parses markup with one root element and builds it.
pub fn html<C: Components>(tokens: &[Token], scope: &Scope, components: &C) -> (r: Result<
    Composite,
    Error,
>)
    ensures
        outcome_of(r) == html_of(token_views(tokens@), scope@, components),
{
    let (element, next) = match Element::parse(tokens, 0) {
        Ok(parsed) => parsed,
        Err(e) => {
            return Err(Error::Parse(e));
        },
    };
    if next != tokens.len() {
        return Err(Error::Parse(syntax_error(next, Expected::End)));
    }
    match element.to_tokens(scope, components) {
        Ok(c) => Ok(c),
        Err(x) => Err(Error::Compile(x)),
    }
}

/// Parses markup with any number of root nodes and builds them into one
/// composite, which renders them one after the other.
pub fn tree<C: Components>(tokens: &[Token], scope: &Scope, components: &C) -> (r: Result<
    Composite,
    Error,
>)
    ensures
        outcome_of(r) == tree_of(token_views(tokens@), scope@, components),
{
    let (nodes, next) = match Nodes::parse(tokens, 0) {
        Ok(parsed) => parsed,
        Err(e) => {
            return Err(Error::Parse(e));
        },
    };
    if next != tokens.len() {
        return Err(Error::Parse(syntax_error(next, Expected::End)));
    }
    match nodes.get_tuples(scope, components) {
        Ok(c) => Ok(c),
        Err(x) => Err(Error::Compile(x)),
    }
}

} // verus!
