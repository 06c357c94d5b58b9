//! The tokens that markup is written in.

use vstd::prelude::*;
use crate::error::{Expected, ParseError, ParseErrorView};
use crate::value::{Block, ExpressionView};

verus! {

/// A punctuation mark of the grammar.
#[derive(Debug, Clone, Copy, PartialEq, Eq, Structural)]
pub enum Punct {
    /// `<`
    Lt,
    /// `>`
    Gt,
    /// `/`
    Slash,
    /// `?`, the marker of a flag attribute.
    Question,
    /// `&`, the marker of an attribute whose value is escaped.
    Amp,
    /// `=`
    Eq,
    /// `-`, which joins the segments of an attribute name.
    Minus,
}

/// A token of the input.
#[derive(Debug)]
pub enum Token {
    Punct(Punct),
    Ident(String),
    Block(Block),
    /// Any token that the grammar has no use for.
    Other,
}

/// The mathematical content of a [`Token`].
pub enum TokenView {
    Punct(Punct),
    Ident(Seq<char>),
    Block(Seq<ExpressionView>),
    Other,
}

impl View for Token {
    type V = TokenView;

    open spec fn view(&self) -> TokenView {
        match self {
            Token::Punct(p) => TokenView::Punct(*p),
            Token::Ident(s) => TokenView::Ident(s@),
            Token::Block(b) => TokenView::Block(b@),
            Token::Other => TokenView::Other,
        }
    }
}

/// The contents of a sequence of tokens.
pub open spec fn token_views(s: Seq<Token>) -> Seq<TokenView> {
    Seq::new(s.len(), |i: int| s[i]@)
}

/// The outcome of parsing from a position: what was parsed and the position
/// after it, or the error.
pub type Parsed<T> = Result<(T, int), ParseErrorView>;

/// The failure to find what the grammar expects at a position.
pub open spec fn unexpected<T>(position: int, wanted: Expected) -> Parsed<T> {
    Err(ParseErrorView::Syntax { position, wanted })
}

/// Whether the token at `pos` is the punctuation mark `p`. No token stands
/// past the end of the input.
pub open spec fn is_punct(t: Seq<TokenView>, pos: int, p: Punct) -> bool {
    0 <= pos < t.len() && t[pos] == TokenView::Punct(p)
}

/// A parsed sequence with `head` put before it.
pub open spec fn prepend<T>(head: Seq<T>, r: Parsed<Seq<T>>) -> Parsed<Seq<T>> {
    match r {
        Ok((tail, next)) => Ok((head + tail, next)),
        Err(e) => Err(e),
    }
}

/// The outcome of an executable parser, as mathematical values.
pub open spec fn outcome<T: View>(r: Result<(T, usize), ParseError>) -> Parsed<T::V> {
    match r {
        Ok((x, next)) => Ok((x@, next as int)),
        Err(e) => Err(e@),
    }
}

/// The identifier at `pos`, if the token there is one.
pub open spec fn ident_at(t: Seq<TokenView>, pos: int) -> Option<Seq<char>> {
    if 0 <= pos < t.len() {
        match t[pos] {
            TokenView::Ident(s) => Some(s),
            _ => None,
        }
    } else {
        None
    }
}

/// The block at `pos`, if the token there is one.
pub open spec fn block_at(t: Seq<TokenView>, pos: int) -> Option<Seq<ExpressionView>> {
    if 0 <= pos < t.len() {
        match t[pos] {
            TokenView::Block(b) => Some(b),
            _ => None,
        }
    } else {
        None
    }
}

/// Whether the token at `pos` is the punctuation mark `p`.
pub fn peek(tokens: &[Token], pos: usize, p: Punct) -> (r: bool)
    ensures
        r == is_punct(token_views(tokens@), pos as int, p),
{
    if pos < tokens.len() {
        match &tokens[pos] {
            Token::Punct(q) => *q == p,
            _ => false,
        }
    } else {
        false
    }
}

/// The identifier at `pos`, if the token there is one.
pub fn peek_ident(tokens: &[Token], pos: usize) -> (r: Option<&String>)
    ensures
        match r {
            Some(s) => ident_at(token_views(tokens@), pos as int) == Some(s@),
            None => ident_at(token_views(tokens@), pos as int) is None,
        },
{
    if pos < tokens.len() {
        match &tokens[pos] {
            Token::Ident(s) => Some(s),
            _ => None,
        }
    } else {
        None
    }
}

/// The block at `pos`, if the token there is one.
pub fn peek_block(tokens: &[Token], pos: usize) -> (r: Option<&Block>)
    ensures
        match r {
            Some(b) => block_at(token_views(tokens@), pos as int) == Some(b@),
            None => block_at(token_views(tokens@), pos as int) is None,
        },
{
    if pos < tokens.len() {
        match &tokens[pos] {
            Token::Block(b) => Some(b),
            _ => None,
        }
    } else {
        None
    }
}

/// The error of finding something else than `wanted` at `position`.
pub fn syntax_error(position: usize, wanted: Expected) -> (r: ParseError)
    ensures
        r@ == (ParseErrorView::Syntax { position: position as int, wanted }),
{
    ParseError::Syntax { position, wanted }
}

} // verus!
