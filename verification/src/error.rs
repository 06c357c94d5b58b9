//! The errors of parsing and of building the tree.

use vstd::prelude::*;

verus! {

/// What the parser needed at a position where it found something else.
#[derive(Debug, Clone, Copy, PartialEq, Eq, Structural)]
pub enum Expected {
    /// `<`, which opens a tag.
    Lt,
    /// `>`, which closes a tag.
    Gt,
    /// `/`, which marks a closing tag.
    Slash,
    /// An identifier.
    Ident,
    /// An expression block.
    Block,
    /// The end of the input.
    End,
}

/// Why a sequence of tokens is no markup. Positions count tokens from the
/// start of the input.
#[derive(Debug)]
pub enum ParseError {
    /// The token at `position` is not what the grammar wants there.
    Syntax { position: usize, wanted: Expected },
    /// The element whose opening tag stands at `position`, with the name
    /// `expected`, is closed by a tag with the name `found`.
    Mismatch { position: usize, expected: String, found: String },
}

/// The mathematical content of a [`ParseError`].
pub enum ParseErrorView {
    Syntax { position: int, wanted: Expected },
    Mismatch { position: int, expected: Seq<char>, found: Seq<char> },
}

impl View for ParseError {
    type V = ParseErrorView;

    open spec fn view(&self) -> ParseErrorView {
        match self {
            ParseError::Syntax { position, wanted } => ParseErrorView::Syntax {
                position: *position as int,
                wanted: *wanted,
            },
            ParseError::Mismatch { position, expected, found } => ParseErrorView::Mismatch {
                position: *position as int,
                expected: expected@,
                found: found@,
            },
        }
    }
}

/// Why a parsed tree cannot be built into renderable values.
#[derive(Debug)]
pub enum CompileError {
    /// An expression refers to a binding of this name, and the scope has
    /// none.
    Unbound(String),
    /// The flag attribute of this name has a value that is no truth value.
    NotBool(String),
    /// The attribute of this name has a block without a statement for its
    /// value.
    EmptyBlock(String),
    /// No component of this name is known.
    UnknownComponent(String),
}

/// The mathematical content of a [`CompileError`].
pub enum CompileErrorView {
    Unbound(Seq<char>),
    NotBool(Seq<char>),
    EmptyBlock(Seq<char>),
    UnknownComponent(Seq<char>),
}

impl View for CompileError {
    type V = CompileErrorView;

    open spec fn view(&self) -> CompileErrorView {
        match self {
            CompileError::Unbound(n) => CompileErrorView::Unbound(n@),
            CompileError::NotBool(n) => CompileErrorView::NotBool(n@),
            CompileError::EmptyBlock(n) => CompileErrorView::EmptyBlock(n@),
            CompileError::UnknownComponent(n) => CompileErrorView::UnknownComponent(n@),
        }
    }
}

/// Why markup could not be turned into renderable values.
#[derive(Debug)]
pub enum Error {
    Parse(ParseError),
    Compile(CompileError),
}

/// The mathematical content of an [`Error`].
pub enum ErrorView {
    Parse(ParseErrorView),
    Compile(CompileErrorView),
}

impl View for Error {
    type V = ErrorView;

    open spec fn view(&self) -> ErrorView {
        match self {
            Error::Parse(e) => ErrorView::Parse(e@),
            Error::Compile(e) => ErrorView::Compile(e@),
        }
    }
}

} // verus!
