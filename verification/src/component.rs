//! Custom elements: components that are defined outside this crate and
//! found by the name of their tag.

use vstd::prelude::*;
use crate::attributes::{dash_joined, name_at, AttributeName, AttributeNameString};
use crate::composite::{Composite, CompositeView};
use crate::error::{Expected, ParseError, ParseErrorView};
use crate::render::{Render, Write, WriteError};
use crate::token::{syntax_error, token_views, Token, TokenView};
use crate::value::{Value, ValueView};

verus! {

/// What `char::is_uppercase` tells of a character: whether it has the
/// Unicode property `Uppercase`.
pub uninterp spec fn is_uppercase(c: char) -> bool;

/// `char::is_uppercase` of the standard library, whose result is a function
/// of the character alone; the contract gives that result its name.
#[verifier::external_body]
fn char_is_uppercase(c: char) -> (r: bool)
    ensures
        r == is_uppercase(c),
{
    c.is_uppercase()
}

/// Whether a tag of this name stands for a custom element: its first
/// character is an uppercase letter.
pub open spec fn is_custom(name: Seq<char>) -> bool {
    name.len() > 0 && is_uppercase(name[0])
}

/// Whether a tag of this name stands for a custom element.
pub fn is_custom_name(name: &str) -> (r: bool)
    ensures
        r == is_custom(name@),
{
    if name.is_empty() {
        false
    } else {
        char_is_uppercase(name.get_char(0))
    }
}

/// The contents of a sequence of properties with their values.
pub open spec fn property_values(s: Seq<(String, Value)>) -> Seq<(Seq<char>, ValueView)> {
    Seq::new(s.len(), |i: int| (s[i].0@, s[i].1@))
}

/// The content of optional children.
pub open spec fn children_view(c: Option<Composite>) -> Option<CompositeView> {
    match c {
        Some(k) => Some(k@),
        None => None,
    }
}

/// A table of components: what stands behind the names of custom elements.
pub trait Components {
    /// What the component of that name makes of its properties and
    /// children, if the table has a component of that name. A table that
    /// does not say so leaves it open.
    open spec fn constructed(
        &self,
        name: Seq<char>,
        properties: Seq<(Seq<char>, ValueView)>,
        children: Option<CompositeView>,
    ) -> Option<CompositeView> {
        arbitrary()
    }

    /// Constructs the component of that name from the properties that were
    /// supplied, in the order in which they were written, and the children.
    /// Fields that were not supplied are the component's own matter.
    fn construct(
        &self,
        name: &str,
        properties: Vec<(String, Value)>,
        children: Option<Composite>,
    ) -> (r: Option<Composite>)
        ensures
            children_view(r) == self.constructed(
                name@,
                property_values(properties@),
                children_view(children),
            ),
    ;
}

/// The table without components.
#[derive(Debug)]
pub struct NoComponents;

impl Components for NoComponents {
    open spec fn constructed(
        &self,
        name: Seq<char>,
        properties: Seq<(Seq<char>, ValueView)>,
        children: Option<CompositeView>,
    ) -> Option<CompositeView> {
        None
    }

    fn construct(
        &self,
        name: &str,
        properties: Vec<(String, Value)>,
        children: Option<Composite>,
    ) -> (r: Option<Composite>) {
        None
    }
}

/// What a component says of itself so that it can be rendered as an
/// element: its attributes and its children, both as markup.
pub trait ElementDefaults {
    /// The attributes of the component, as they are written in its tag. A
    /// component that does not say so leaves them open.
    open spec fn attributes_markup(&self) -> Seq<char> {
        arbitrary()
    }

    /// The children of the component, as markup. A component that does not
    /// say so leaves them open.
    open spec fn children_markup(&self) -> Seq<char> {
        arbitrary()
    }

    fn _get_attributes(&self) -> (r: String)
        ensures
            r@ == self.attributes_markup(),
    ;

    fn _get_children(&self) -> (r: String)
        ensures
            r@ == self.children_markup(),
    ;

    fn get_attributes(&self) -> (r: String)
        ensures
            r@ == self.attributes_markup(),
    {
        self._get_attributes()
    }

    fn get_children(&self) -> (r: String)
        ensures
            r@ == self.children_markup(),
    {
        self._get_children()
    }
}

/// The tag under which a component renders.
#[derive(Debug)]
pub struct RenderableAttributes {
    pub tag_name: String,
}

/// The tag name that a sequence of tokens spells: a name of dash-joined
/// identifiers that takes up the whole input.
pub open spec fn tag_name_of(t: Seq<TokenView>) -> Result<Seq<char>, ParseErrorView> {
    match name_at(t, 0) {
        Err(e) => Err(e),
        Ok((name, next)) => if next == t.len() {
            Ok(dash_joined(name))
        } else {
            Err(ParseErrorView::Syntax { position: next, wanted: Expected::End })
        },
    }
}

impl RenderableAttributes {
    /// Parses the name of a tag, which must take up the whole input.
    pub fn parse(tokens: &[Token]) -> (r: Result<RenderableAttributes, ParseError>)
        ensures
            match r {
                Ok(a) => tag_name_of(token_views(tokens@)) == Ok::<_, ParseErrorView>(
                    a.tag_name@,
                ),
                Err(e) => tag_name_of(token_views(tokens@)) == Err::<Seq<char>, _>(e@),
            },
    {
        let (name, next) = AttributeName::parse(tokens, 0)?;
        if next == tokens.len() {
            Ok(RenderableAttributes { tag_name: name.to_string() })
        } else {
            Err(syntax_error(next, Expected::End))
        }
    }
}

/// A component together with the tag under which it renders.
#[derive(Debug)]
pub struct Renderable<C> {
    pub tag_name: String,
    pub component: C,
}

/// The markup of a component under a tag: the opening tag with a space and
/// the attributes, the children, and the closing tag.
pub open spec fn component_text(tag: Seq<char>, attributes: Seq<char>, children: Seq<char>) -> Seq<
    char,
> {
    seq!['<'] + tag + seq![' '] + attributes + seq!['>'] + children + seq!['<', '/'] + tag + seq![
        '>',
    ]
}

/// Writes a component as an element of the tag `tag_name`, stopping at the
/// first failed write.
pub fn write_component<C: ElementDefaults, W: Write>(
    tag_name: &str,
    component: &C,
    w: &mut W,
) -> (r: Result<(), WriteError>)
    ensures
        r is Ok ==> final(w).written() == old(w).written() + component_text(
            tag_name@,
            component.attributes_markup(),
            component.children_markup(),
        ),
        old(w).reliable() ==> r is Ok && final(w).reliable(),
{
    let attributes = component.get_attributes();
    let children = component.get_children();
    proof {
        reveal_strlit("<");
        reveal_strlit(" ");
        reveal_strlit(">");
        reveal_strlit("</");
        assert("<"@ =~= seq!['<']);
        assert(" "@ =~= seq![' ']);
        assert(">"@ =~= seq!['>']);
        assert("</"@ =~= seq!['<', '/']);
    }
    w.write_str("<")?;
    w.write_str(tag_name)?;
    w.write_str(" ")?;
    w.write_str(attributes.as_str())?;
    w.write_str(">")?;
    w.write_str(children.as_str())?;
    w.write_str("</")?;
    w.write_str(tag_name)?;
    w.write_str(">")?;
    assert(w.written() =~= old(w).written() + component_text(
        tag_name@,
        component.attributes_markup(),
        component.children_markup(),
    ));
    Ok(())
}

impl<C: ElementDefaults> Render for Renderable<C> {
    open spec fn rendered(&self) -> Seq<char> {
        component_text(
            self.tag_name@,
            self.component.attributes_markup(),
            self.component.children_markup(),
        )
    }

    fn render<W: Write>(&self, w: &mut W) -> (r: Result<(), WriteError>) {
        write_component(self.tag_name.as_str(), &self.component, w)
    }
}

/// Makes a component renderable under the tag that `attr` spells.
pub fn renderable<C: ElementDefaults>(attr: &[Token], item: C) -> (r: Result<
    Renderable<C>,
    ParseError,
>)
    ensures
        match r {
            Ok(c) => tag_name_of(token_views(attr@)) == Ok::<_, ParseErrorView>(c.tag_name@)
                && c.component == item,
            Err(e) => tag_name_of(token_views(attr@)) == Err::<Seq<char>, _>(e@),
        },
{
    let parsed = RenderableAttributes::parse(attr)?;
    Ok(Renderable { tag_name: parsed.tag_name, component: item })
}

} // verus!
