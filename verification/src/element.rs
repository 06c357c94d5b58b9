//! Elements as they are written: an opening tag, children, and a closing
//! tag that names the element again.

use vstd::prelude::*;
use crate::attributes::{
    attributes_at,
    attributes_at_advances,
    parse_attributes,
    AttributeView,
    Attributes,
};
use crate::error::{Expected, ParseError, ParseErrorView};
use crate::token::{
    block_at,
    ident_at,
    is_punct,
    outcome,
    peek,
    peek_block,
    peek_ident,
    prepend,
    syntax_error,
    token_views,
    unexpected,
    Parsed,
    Punct,
    Token,
    TokenView,
};
use crate::text::same_text;
use crate::value::{Block, ExpressionView};

verus! {

/// An opening tag: `<`, a name, attributes, and `>` or `/>`. The empty tag
/// `<>` opens a fragment.
#[derive(Debug)]
pub struct OpeningTag {
    pub name: String,
    pub self_closing: bool,
    pub attributes: Attributes,
}

/// A closing tag: `</`, a name, `>`. The empty tag `</>` closes a fragment.
#[derive(Debug)]
pub struct ClosingTag {
    pub name: String,
}

/// A child of an element: an element again, or an expression block.
#[derive(Debug)]
pub enum Node {
    Element(Element),
    Block(Block),
}

/// A sequence of nodes in the order in which they are written.
#[derive(Debug)]
pub struct Nodes {
    pub list: Vec<Node>,
}

/// An element: its opening tag and its children. An element without
/// children has none, never an empty sequence.
#[derive(Debug)]
pub struct Element {
    pub tag: OpeningTag,
    pub children: Option<Nodes>,
}

/// The mathematical content of an [`OpeningTag`].
pub struct OpeningTagView {
    pub name: Seq<char>,
    pub self_closing: bool,
    pub attributes: Seq<AttributeView>,
}

/// The mathematical content of a [`Node`].
pub enum NodeView {
    Element(Box<ElementView>),
    Block(Seq<ExpressionView>),
}

/// The mathematical content of an [`Element`].
pub struct ElementView {
    pub tag: OpeningTagView,
    pub children: Option<Seq<NodeView>>,
}

/// The name that stands for the empty tag of a fragment.
pub open spec fn fragment_name() -> Seq<char> {
    seq!['x']
}

impl View for OpeningTag {
    type V = OpeningTagView;

    open spec fn view(&self) -> OpeningTagView {
        OpeningTagView {
            name: self.name@,
            self_closing: self.self_closing,
            attributes: self.attributes@,
        }
    }
}

impl View for ClosingTag {
    type V = Seq<char>;

    open spec fn view(&self) -> Seq<char> {
        self.name@
    }
}

/// The content of a node.
pub open spec fn node_view(n: Node) -> NodeView
    decreases n,
{
    match n {
        Node::Element(e) => NodeView::Element(Box::new(element_view(e))),
        Node::Block(b) => NodeView::Block(b@),
    }
}

/// The content of an element.
pub open spec fn element_view(e: Element) -> ElementView
    decreases e,
{
    ElementView {
        tag: e.tag@,
        children: match e.children {
            Some(nodes) => Some(node_views(nodes.list@, nodes.list@.len())),
            None => None,
        },
    }
}

/// The contents of the first `n` nodes of a sequence.
pub open spec fn node_views(s: Seq<Node>, n: nat) -> Seq<NodeView>
    decreases s, n,
{
    if n == 0 || n > s.len() {
        Seq::empty()
    } else {
        node_views(s, (n - 1) as nat).push(node_view(s[n - 1]))
    }
}

impl View for Node {
    type V = NodeView;

    open spec fn view(&self) -> NodeView {
        node_view(*self)
    }
}

impl View for Element {
    type V = ElementView;

    open spec fn view(&self) -> ElementView {
        element_view(*self)
    }
}

impl View for Nodes {
    type V = Seq<NodeView>;

    open spec fn view(&self) -> Seq<NodeView> {
        node_views(self.list@, self.list@.len())
    }
}

/// The views of a sequence of nodes are as many as the nodes, each the
/// view of the node at its position.
pub proof fn node_views_index(s: Seq<Node>, n: nat)
    requires
        n <= s.len(),
    ensures
        node_views(s, n).len() == n,
        forall|i: int| 0 <= i < n ==> #[trigger] node_views(s, n)[i] == node_view(s[i]),
    decreases n,
{
    if n > 0 {
        node_views_index(s, (n - 1) as nat);
    }
}

/// An opening tag at `pos`: `<`, then either `>` at once, which opens a
/// fragment, or a name, the attributes, an optional `/` and `>`.
pub open spec fn opening_tag_at(t: Seq<TokenView>, pos: int) -> Parsed<OpeningTagView> {
    if !is_punct(t, pos, Punct::Lt) {
        unexpected(pos, Expected::Lt)
    } else if is_punct(t, pos + 1, Punct::Gt) {
        Ok(
            (
                OpeningTagView {
                    name: fragment_name(),
                    self_closing: false,
                    attributes: Seq::empty(),
                },
                pos + 2,
            ),
        )
    } else {
        match ident_at(t, pos + 1) {
            None => unexpected(pos + 1, Expected::Ident),
            Some(name) => match attributes_at(t, pos + 2) {
                Err(e) => Err(e),
                Ok((attributes, after)) => {
                    let self_closing = is_punct(t, after, Punct::Slash);
                    let end = if self_closing {
                        after + 1
                    } else {
                        after
                    };
                    if is_punct(t, end, Punct::Gt) {
                        Ok((OpeningTagView { name, self_closing, attributes }, end + 1))
                    } else {
                        unexpected(end, Expected::Gt)
                    }
                },
            },
        }
    }
}

/// A closing tag at `pos`: `</`, then `>` at once, which closes a
/// fragment, or a name and `>`.
pub open spec fn closing_tag_at(t: Seq<TokenView>, pos: int) -> Parsed<Seq<char>> {
    if !is_punct(t, pos, Punct::Lt) {
        unexpected(pos, Expected::Lt)
    } else if !is_punct(t, pos + 1, Punct::Slash) {
        unexpected(pos + 1, Expected::Slash)
    } else if is_punct(t, pos + 2, Punct::Gt) {
        Ok((fragment_name(), pos + 3))
    } else {
        match ident_at(t, pos + 2) {
            None => unexpected(pos + 2, Expected::Ident),
            Some(name) => if is_punct(t, pos + 3, Punct::Gt) {
                Ok((name, pos + 4))
            } else {
                unexpected(pos + 3, Expected::Gt)
            },
        }
    }
}

/// An opening tag takes at least two tokens, and ends within the input.
pub proof fn opening_tag_at_advances(t: Seq<TokenView>, pos: int)
    ensures
        match opening_tag_at(t, pos) {
            Ok((_, next)) => 0 <= pos && pos + 2 <= next <= t.len(),
            Err(_) => true,
        },
{
    if is_punct(t, pos, Punct::Lt) {
        attributes_at_advances(t, pos + 2);
    }
}

/// Whether the children of an element end at `pos`: at the end of the
/// input, or where a closing tag begins.
pub open spec fn children_end(t: Seq<TokenView>, pos: int) -> bool {
    pos >= t.len() || (is_punct(t, pos, Punct::Lt) && is_punct(t, pos + 1, Punct::Slash))
}

/// The element at `pos`: an opening tag, and, unless that closes itself,
/// the children and a closing tag of the same name. Children that turn
/// out to be none are no children.
pub open spec fn element_at(t: Seq<TokenView>, pos: int) -> Parsed<ElementView>
    decreases t.len() - pos, 0nat,
{
    match opening_tag_at(t, pos) {
        Err(e) => Err(e),
        Ok((tag, after)) => if tag.self_closing {
            Ok((ElementView { tag, children: None }, after))
        } else {
            proof {
                opening_tag_at_advances(t, pos);
            }
            match nodes_at(t, after) {
                Err(e) => Err(e),
                Ok((nodes, inner)) => match closing_tag_at(t, inner) {
                    Err(e) => Err(e),
                    Ok((name, end)) => if name != tag.name {
                        Err(
                            ParseErrorView::Mismatch {
                                position: pos,
                                expected: tag.name,
                                found: name,
                            },
                        )
                    } else {
                        Ok(
                            (
                                ElementView {
                                    tag,
                                    children: if nodes.len() > 0 {
                                        Some(nodes)
                                    } else {
                                        None
                                    },
                                },
                                end,
                            ),
                        )
                    },
                },
            }
        },
    }
}

/// The node at `pos`: an element where a `<` stands, and else a block.
pub open spec fn node_at(t: Seq<TokenView>, pos: int) -> Parsed<NodeView>
    decreases t.len() - pos, 1nat,
{
    if is_punct(t, pos, Punct::Lt) {
        match element_at(t, pos) {
            Err(e) => Err(e),
            Ok((e, next)) => Ok((NodeView::Element(Box::new(e)), next)),
        }
    } else {
        match block_at(t, pos) {
            Some(b) => Ok((NodeView::Block(b), pos + 1)),
            None => unexpected(pos, Expected::Block),
        }
    }
}

/// The nodes from `pos` up to the end of the input or to where a closing
/// tag begins. (A node takes at least one token and ends within the
/// input; the test of that serves the definition only.)
pub open spec fn nodes_at(t: Seq<TokenView>, pos: int) -> Parsed<Seq<NodeView>>
    decreases t.len() - pos, 2nat,
{
    if children_end(t, pos) {
        Ok((Seq::empty(), pos))
    } else {
        match node_at(t, pos) {
            Err(e) => Err(e),
            Ok((n, next)) => if next <= pos || next > t.len() {
                Ok((seq![n], next))
            } else {
                prepend(seq![n], nodes_at(t, next))
            },
        }
    }
}

/// An element takes at least two tokens, and ends within the input.
pub proof fn element_at_advances(t: Seq<TokenView>, pos: int)
    ensures
        match element_at(t, pos) {
            Ok((_, next)) => 0 <= pos && pos + 2 <= next <= t.len(),
            Err(_) => true,
        },
    decreases t.len() - pos, 0nat,
{
    opening_tag_at_advances(t, pos);
    match opening_tag_at(t, pos) {
        Ok((tag, after)) => {
            if !tag.self_closing {
                nodes_at_advances(t, after);
            }
        },
        Err(_) => {},
    }
}

/// A node takes at least one token, and ends within the input.
pub proof fn node_at_advances(t: Seq<TokenView>, pos: int)
    ensures
        match node_at(t, pos) {
            Ok((_, next)) => 0 <= pos < next <= t.len(),
            Err(_) => true,
        },
    decreases t.len() - pos, 1nat,
{
    if is_punct(t, pos, Punct::Lt) {
        element_at_advances(t, pos);
    }
}

/// The nodes from a position within the input end within the input, at
/// its end or where a closing tag begins.
pub proof fn nodes_at_advances(t: Seq<TokenView>, pos: int)
    requires
        0 <= pos,
    ensures
        match nodes_at(t, pos) {
            Ok((_, next)) => pos <= next && (next <= t.len() || next == pos) && children_end(
                t,
                next,
            ),
            Err(_) => true,
        },
    decreases t.len() - pos, 2nat,
{
    if !children_end(t, pos) {
        node_at_advances(t, pos);
        match node_at(t, pos) {
            Ok((_, next)) => {
                nodes_at_advances(t, next);
            },
            Err(_) => {},
        }
    }
}

/// The name that stands for the empty tag of a fragment.
pub fn get_fragment_ident() -> (r: String)
    ensures
        r@ == fragment_name(),
{
    proof {
        reveal_strlit("x");
        assert("x"@ =~= fragment_name());
    }
    String::from_str("x")
}

impl OpeningTag {
    /// Parses an opening tag at `pos`.
    pub fn parse(tokens: &[Token], pos: usize) -> (r: Result<(OpeningTag, usize), ParseError>)
        ensures
            outcome(r) == opening_tag_at(token_views(tokens@), pos as int),
    {
        if !peek(tokens, pos, Punct::Lt) {
            return Err(syntax_error(pos, Expected::Lt));
        }
        assert(pos < tokens.len());
        if peek(tokens, pos + 1, Punct::Gt) {
            let tag = OpeningTag {
                name: get_fragment_ident(),
                self_closing: false,
                attributes: Attributes::empty(),
            };
            return Ok((tag, pos + 2));
        }
        let name = match peek_ident(tokens, pos + 1) {
            Some(s) => s.clone(),
            None => {
                return Err(syntax_error(pos + 1, Expected::Ident));
            },
        };
        let (attributes, after) = parse_attributes(tokens, pos + 2)?;
        proof {
            attributes_at_advances(token_views(tokens@), pos + 2);
        }
        assert(after < tokens.len());
        let self_closing = peek(tokens, after, Punct::Slash);
        let end = if self_closing {
            after + 1
        } else {
            after
        };
        if !peek(tokens, end, Punct::Gt) {
            return Err(syntax_error(end, Expected::Gt));
        }
        Ok((OpeningTag { name, self_closing, attributes }, end + 1))
    }
}

impl ClosingTag {
    /// Parses a closing tag at `pos`.
    pub fn parse(tokens: &[Token], pos: usize) -> (r: Result<(ClosingTag, usize), ParseError>)
        ensures
            outcome(r) == closing_tag_at(token_views(tokens@), pos as int),
    {
        if !peek(tokens, pos, Punct::Lt) {
            return Err(syntax_error(pos, Expected::Lt));
        }
        assert(pos < tokens.len());
        if !peek(tokens, pos + 1, Punct::Slash) {
            return Err(syntax_error(pos + 1, Expected::Slash));
        }
        assert(pos + 1 < tokens.len());
        if peek(tokens, pos + 2, Punct::Gt) {
            return Ok((ClosingTag { name: get_fragment_ident() }, pos + 3));
        }
        let name = match peek_ident(tokens, pos + 2) {
            Some(s) => s.clone(),
            None => {
                return Err(syntax_error(pos + 2, Expected::Ident));
            },
        };
        assert(pos + 2 < tokens.len());
        if !peek(tokens, pos + 3, Punct::Gt) {
            return Err(syntax_error(pos + 3, Expected::Gt));
        }
        Ok((ClosingTag { name }, pos + 4))
    }
}

/// Whether the children of an element end at `pos`.
pub fn at_children_end(tokens: &[Token], pos: usize) -> (r: bool)
    ensures
        r == children_end(token_views(tokens@), pos as int),
{
    if pos >= tokens.len() {
        true
    } else {
        peek(tokens, pos, Punct::Lt) && peek(tokens, pos + 1, Punct::Slash)
    }
}

impl Element {
    /// Parses an element at `pos`. An element that closes itself has no
    /// children; any other has the children up to its closing tag, which
    /// must name it again.
    pub fn parse(tokens: &[Token], pos: usize) -> (r: Result<(Element, usize), ParseError>)
        ensures
            outcome(r) == element_at(token_views(tokens@), pos as int),
        decreases tokens@.len() - pos, 0nat,
    {
        let ghost t = token_views(tokens@);
        let (tag, after) = OpeningTag::parse(tokens, pos)?;
        if tag.self_closing {
            return Ok((Element { tag, children: None }, after));
        }
        proof {
            opening_tag_at_advances(t, pos as int);
        }
        let (nodes, inner) = Nodes::parse(tokens, after)?;
        let (closing, end) = ClosingTag::parse(tokens, inner)?;
        if !same_text(closing.name.as_str(), tag.name.as_str()) {
            return Err(
                ParseError::Mismatch { position: pos, expected: tag.name, found: closing.name },
            );
        }
        let children = if nodes.list.len() > 0 {
            Some(nodes)
        } else {
            None
        };
        Ok((Element { tag, children }, end))
    }
}

impl Node {
    /// Parses a node at `pos`: an element where a `<` stands, and else a
    /// block.
    pub fn parse(tokens: &[Token], pos: usize) -> (r: Result<(Node, usize), ParseError>)
        ensures
            outcome(r) == node_at(token_views(tokens@), pos as int),
        decreases tokens@.len() - pos, 1nat,
    {
        if peek(tokens, pos, Punct::Lt) {
            let (element, next) = Element::parse(tokens, pos)?;
            Ok((Node::Element(element), next))
        } else {
            match peek_block(tokens, pos) {
                Some(b) => {
                    assert(pos < tokens.len());
                    Ok((Node::Block(b.clone()), pos + 1))
                },
                None => Err(syntax_error(pos, Expected::Block)),
            }
        }
    }
}

impl Nodes {
    /// Parses nodes from `pos` up to the end of the input or to where a
    /// closing tag begins.
    pub fn parse(tokens: &[Token], pos: usize) -> (r: Result<(Nodes, usize), ParseError>)
        ensures
            outcome(r) == nodes_at(token_views(tokens@), pos as int),
        decreases tokens@.len() - pos, 2nat,
    {
        let ghost t = token_views(tokens@);
        let mut list: Vec<Node> = Vec::new();
        let mut at: usize = pos;
        proof {
            match nodes_at(t, pos as int) {
                Ok((tail, next)) => {
                    assert(Seq::<NodeView>::empty() + tail =~= tail);
                },
                Err(_) => {},
            }
        }
        while !at_children_end(tokens, at)
            invariant
                t == token_views(tokens@),
                pos <= at,
                nodes_at(t, pos as int) == prepend(
                    node_views(list@, list@.len()),
                    nodes_at(t, at as int),
                ),
            decreases tokens@.len() - at,
        {
            let ghost before = node_views(list@, list@.len());
            proof {
                node_at_advances(t, at as int);
                node_views_index(list@, list@.len());
            }
            let (node, next) = Node::parse(tokens, at)?;
            proof {
                let now = before.push(node@);
                match nodes_at(t, next as int) {
                    Ok((tail, end)) => {
                        assert(before + (seq![node@] + tail) =~= now + tail);
                    },
                    Err(_) => {},
                }
            }
            list.push(node);
            proof {
                node_views_index(list@, list@.len());
                assert(node_views(list@, list@.len()) =~= before.push(node@));
            }
            at = next;
        }
        let nodes = Nodes { list };
        assert(nodes@ + Seq::<NodeView>::empty() =~= nodes@);
        Ok((nodes, at))
    }
}

} // verus!
