//! Attributes as they are written in a tag: a kind, a name of one or more
//! segments joined by dashes, and an optional value.

use vstd::prelude::*;
use crate::error::{CompileError, CompileErrorView, Expected, ParseError};
use crate::markup::{inserted, ordered, AttributeMap, AttributeValue, AttributeValueView, Entry};
use crate::token::{
    block_at,
    ident_at,
    is_punct,
    outcome,
    peek,
    peek_block,
    peek_ident,
    prepend,
    syntax_error,
    token_views,
    unexpected,
    Parsed,
    Punct,
    Token,
    TokenView,
};
use crate::value::{
    evaluated,
    value_text,
    Block,
    Expression,
    ExpressionView,
    Scope,
    ValueView,
    Value,
};

verus! {

/// The kind of an attribute, chosen by the marker before its name.
#[derive(Debug, Clone, Copy, PartialEq, Eq, Structural)]
pub enum AttributeType {
    /// Marked with `?`: a flag, present or absent.
    Bool,
    /// Unmarked: the value is written as it is.
    Str,
    /// Marked with `&`: the value is escaped when it is written.
    String,
}

/// The name of an attribute: one or more identifiers, which are written
/// with dashes between them.
#[derive(Debug)]
pub struct AttributeName {
    pub first: String,
    pub rest: Vec<String>,
}

/// The contents of a sequence of strings.
pub open spec fn string_views(s: Seq<String>) -> Seq<Seq<char>> {
    Seq::new(s.len(), |i: int| s[i]@)
}

impl View for AttributeName {
    type V = Seq<Seq<char>>;

    open spec fn view(&self) -> Seq<Seq<char>> {
        seq![self.first@] + string_views(self.rest@)
    }
}

/// The segments of a name with a dash between each two.
pub open spec fn dash_joined(segments: Seq<Seq<char>>) -> Seq<char>
    decreases segments.len(),
{
    if segments.len() == 0 {
        Seq::empty()
    } else if segments.len() == 1 {
        segments[0]
    } else {
        dash_joined(segments.drop_last()) + seq!['-'] + segments.last()
    }
}

/// Names that can be written out as one string.
pub trait AttributeNameString {
    /// The name as it is written.
    spec fn joined(&self) -> Seq<char>;

    /// The name as a string.
    fn to_string(&self) -> (r: String)
        ensures
            r@ == self.joined(),
    ;
}

impl AttributeNameString for AttributeName {
    open spec fn joined(&self) -> Seq<char> {
        dash_joined(self@)
    }

    fn to_string(&self) -> (r: String) {
        let mut out = self.first.clone();
        let mut i: usize = 0;
        assert(self@.take(1) =~= seq![self.first@]);
        while i < self.rest.len()
            invariant
                i <= self.rest.len(),
                out@ == dash_joined(self@.take(i + 1)),
            decreases self.rest.len() - i,
        {
            out.push('-');
            out.append(self.rest[i].as_str());
            proof {
                let next = self@.take(i + 2);
                assert(next.drop_last() =~= self@.take(i + 1));
                assert(next.last() == self.rest[i as int]@);
                assert(out@ =~= dash_joined(next));
            }
            i += 1;
        }
        assert(self@.take(i + 1) =~= self@);
        out
    }
}

/// An attribute of a tag.
#[derive(Debug)]
pub struct Attribute {
    pub name: AttributeName,
    pub attr_type: AttributeType,
    pub value: Option<Block>,
}

/// The mathematical content of an [`Attribute`].
pub struct AttributeView {
    pub name: Seq<Seq<char>>,
    pub attr_type: AttributeType,
    pub value: Option<Seq<ExpressionView>>,
}

impl View for Attribute {
    type V = AttributeView;

    open spec fn view(&self) -> AttributeView {
        AttributeView {
            name: self.name@,
            attr_type: self.attr_type,
            value: match self.value {
                Some(b) => Some(b@),
                None => None,
            },
        }
    }
}

/// The expression that gives an attribute its value: the first statement of
/// its block, or, where it has no block, a reference to the binding that
/// has the attribute's name. A block without a statement gives none.
pub open spec fn value_expression(a: AttributeView) -> Option<ExpressionView> {
    match a.value {
        Some(b) => if b.len() > 0 {
            Some(b[0])
        } else {
            None
        },
        None => Some(ExpressionView::Binding(dash_joined(a.name))),
    }
}

impl Attribute {
    /// An attribute of the given parts.
    pub fn new(name: AttributeName, attr_type: AttributeType, value: Option<Block>) -> (r: Self)
        ensures
            r.name == name,
            r.attr_type == attr_type,
            r.value == value,
    {
        Self { name, attr_type, value }
    }

    /// The name as it is written, with its dashes.
    pub fn get_name(&self) -> (r: String)
        ensures
            r@ == dash_joined(self@.name),
    {
        self.name.to_string()
    }

    /// The expression that gives the attribute its value.
    pub fn get_value(&self) -> (r: Expression)
        requires
            value_expression(self@) is Some,
        ensures
            Some(r@) == value_expression(self@),
    {
        match &self.value {
            Some(value) => value.stmts[0].clone(),
            None => Expression::Binding(self.get_name()),
        }
    }

    /// The expression that gives the attribute its value, or the error of a
    /// block without a statement.
    pub fn value_or_error(&self) -> (r: Result<Expression, CompileError>)
        ensures
            match r {
                Ok(e) => value_expression(self@) == Some(e@),
                Err(e) => value_expression(self@) is None && e@ == CompileErrorView::EmptyBlock(
                    dash_joined(self@.name),
                ),
            },
    {
        let empty = match &self.value {
            Some(value) => value.stmts.len() == 0,
            None => false,
        };
        if empty {
            Err(CompileError::EmptyBlock(self.get_name()))
        } else {
            Ok(self.get_value())
        }
    }
}

/// The attributes of a tag, in the order in which they are written.
#[derive(Debug)]
pub struct Attributes {
    pub list: Vec<Attribute>,
}

/// The contents of a sequence of attributes.
pub open spec fn attribute_views(s: Seq<Attribute>) -> Seq<AttributeView> {
    Seq::new(s.len(), |i: int| s[i]@)
}

impl View for Attributes {
    type V = Seq<AttributeView>;

    open spec fn view(&self) -> Seq<AttributeView> {
        attribute_views(self.list@)
    }
}

/// The segments of a name that follow an identifier: as long as a dash
/// comes next, the identifier that must follow it.
pub open spec fn name_rest(t: Seq<TokenView>, pos: int) -> Parsed<Seq<Seq<char>>>
    decreases t.len() - pos,
{
    if is_punct(t, pos, Punct::Minus) {
        match ident_at(t, pos + 1) {
            Some(s) => prepend(seq![s], name_rest(t, pos + 2)),
            None => unexpected(pos + 1, Expected::Ident),
        }
    } else {
        Ok((Seq::empty(), pos))
    }
}

/// A name at `pos`: an identifier, and further identifiers each after a
/// dash.
pub open spec fn name_at(t: Seq<TokenView>, pos: int) -> Parsed<Seq<Seq<char>>> {
    match ident_at(t, pos) {
        Some(s) => prepend(seq![s], name_rest(t, pos + 1)),
        None => unexpected(pos, Expected::Ident),
    }
}

/// The kind that the marker at `pos` chooses.
pub open spec fn kind_at(t: Seq<TokenView>, pos: int) -> AttributeType {
    if is_punct(t, pos, Punct::Question) {
        AttributeType::Bool
    } else if is_punct(t, pos, Punct::Amp) {
        AttributeType::String
    } else {
        AttributeType::Str
    }
}

/// An attribute at `pos`: an optional marker, a name, and optionally `=`
/// and a block.
pub open spec fn attribute_at(t: Seq<TokenView>, pos: int) -> Parsed<AttributeView> {
    let attr_type = kind_at(t, pos);
    let start = if attr_type == AttributeType::Str {
        pos
    } else {
        pos + 1
    };
    match name_at(t, start) {
        Err(e) => Err(e),
        Ok((name, after)) => if is_punct(t, after, Punct::Eq) {
            match block_at(t, after + 1) {
                Some(b) => Ok((AttributeView { name, attr_type, value: Some(b) }, after + 2)),
                None => unexpected(after + 1, Expected::Block),
            }
        } else {
            Ok((AttributeView { name, attr_type, value: None }, after))
        },
    }
}

/// A name takes at least one token, and ends within the input.
pub proof fn name_rest_advances(t: Seq<TokenView>, pos: int)
    requires
        0 <= pos <= t.len(),
    ensures
        match name_rest(t, pos) {
            Ok((_, next)) => pos <= next <= t.len(),
            Err(_) => true,
        },
    decreases t.len() - pos,
{
    if is_punct(t, pos, Punct::Minus) && ident_at(t, pos + 1) is Some {
        name_rest_advances(t, pos + 2);
    }
}

/// An attribute takes at least one token, and ends within the input.
pub proof fn attribute_at_advances(t: Seq<TokenView>, pos: int)
    requires
        0 <= pos,
    ensures
        match attribute_at(t, pos) {
            Ok((_, next)) => pos < next <= t.len(),
            Err(_) => true,
        },
{
    let start = if kind_at(t, pos) == AttributeType::Str {
        pos
    } else {
        pos + 1
    };
    if ident_at(t, start) is Some {
        name_rest_advances(t, start + 1);
    }
}

/// Whether the attribute list ends at `pos`: at `/` or at `>`.
pub open spec fn attributes_end(t: Seq<TokenView>, pos: int) -> bool {
    is_punct(t, pos, Punct::Slash) || is_punct(t, pos, Punct::Gt)
}

/// The attributes from `pos` up to the `/` or `>` that ends the list.
pub open spec fn attributes_at(t: Seq<TokenView>, pos: int) -> Parsed<Seq<AttributeView>>
    decreases t.len() - pos,
{
    if pos < 0 || attributes_end(t, pos) {
        Ok((Seq::empty(), pos))
    } else {
        match attribute_at(t, pos) {
            Err(e) => Err(e),
            Ok((a, next)) => {
                proof {
                    attribute_at_advances(t, pos);
                }
                prepend(seq![a], attributes_at(t, next))
            },
        }
    }
}

/// An attribute list ends within the input, at the token that ends it.
pub proof fn attributes_at_advances(t: Seq<TokenView>, pos: int)
    requires
        0 <= pos,
    ensures
        match attributes_at(t, pos) {
            Ok((_, next)) => pos <= next < t.len() && attributes_end(t, next),
            Err(_) => true,
        },
    decreases t.len() - pos,
{
    if !attributes_end(t, pos) {
        attribute_at_advances(t, pos);
        match attribute_at(t, pos) {
            Ok((_, next)) => {
                attributes_at_advances(t, next);
            },
            Err(_) => {},
        }
    }
}

impl AttributeName {
    /// Parses a name at `pos`: an identifier, and further identifiers each
    /// after a dash. A dash that no identifier follows is an error.
    pub fn parse(tokens: &[Token], pos: usize) -> (r: Result<(AttributeName, usize), ParseError>)
        ensures
            outcome(r) == name_at(token_views(tokens@), pos as int),
    {
        let ghost t = token_views(tokens@);
        let first = match peek_ident(tokens, pos) {
            Some(s) => s.clone(),
            None => {
                return Err(syntax_error(pos, Expected::Ident));
            },
        };
        let mut rest: Vec<String> = Vec::new();
        assert(pos < tokens.len());
        let mut at: usize = pos + 1;
        assert(seq![first@] + string_views(rest@) =~= seq![first@]);
        while peek(tokens, at, Punct::Minus)
            invariant
                t == token_views(tokens@),
                at <= tokens.len(),
                name_at(t, pos as int) == prepend(
                    seq![first@] + string_views(rest@),
                    name_rest(t, at as int),
                ),
            decreases tokens.len() - at,
        {
            let ghost before = seq![first@] + string_views(rest@);
            match peek_ident(tokens, at + 1) {
                Some(s) => {
                    rest.push(s.clone());
                    proof {
                        name_rest_advances(t, at + 2);
                        let now = seq![first@] + string_views(rest@);
                        assert(now =~= before + seq![s@]);
                        match name_rest(t, at + 2) {
                            Ok((tail, next)) => {
                                assert(before + (seq![s@] + tail) =~= now + tail);
                            },
                            Err(_) => {},
                        }
                    }
                },
                None => {
                    return Err(syntax_error(at + 1, Expected::Ident));
                },
            }
            at = at + 2;
        }
        let name = AttributeName { first, rest };
        assert(name@ + Seq::<Seq<char>>::empty() =~= name@);
        Ok((name, at))
    }
}

impl Attribute {
    /// Parses an attribute at `pos`: an optional marker (`?` or `&`), a
    /// name, and optionally `=` and a block.
    pub fn parse(tokens: &[Token], pos: usize) -> (r: Result<(Attribute, usize), ParseError>)
        ensures
            outcome(r) == attribute_at(token_views(tokens@), pos as int),
    {
        let mut attr_type = AttributeType::Str;
        let mut start = pos;
        if peek(tokens, pos, Punct::Question) {
            assert(pos < tokens.len());
            attr_type = AttributeType::Bool;
            start = pos + 1;
        } else if peek(tokens, pos, Punct::Amp) {
            assert(pos < tokens.len());
            attr_type = AttributeType::String;
            start = pos + 1;
        }
        let (name, after) = AttributeName::parse(tokens, start)?;
        proof {
            name_rest_advances(token_views(tokens@), start + 1);
        }
        if peek(tokens, after, Punct::Eq) {
            assert(after < tokens.len());
            match peek_block(tokens, after + 1) {
                Some(b) => Ok((Attribute::new(name, attr_type, Some(b.clone())), after + 2)),
                None => Err(syntax_error(after + 1, Expected::Block)),
            }
        } else {
            Ok((Attribute::new(name, attr_type, None), after))
        }
    }
}

/// Parses the attributes of a tag from `pos` up to the `/` or `>` that ends
/// the list.
pub fn parse_attributes(tokens: &[Token], pos: usize) -> (r: Result<
    (Attributes, usize),
    ParseError,
>)
    ensures
        outcome(r) == attributes_at(token_views(tokens@), pos as int),
{
    let ghost t = token_views(tokens@);
    let mut list: Vec<Attribute> = Vec::new();
    let mut at: usize = pos;
    assert(attribute_views(list@) =~= Seq::<AttributeView>::empty());
    proof {
        match attributes_at(t, pos as int) {
            Ok((tail, next)) => {
                assert(Seq::<AttributeView>::empty() + tail =~= tail);
            },
            Err(_) => {},
        }
    }
    while !(peek(tokens, at, Punct::Slash) || peek(tokens, at, Punct::Gt))
        invariant
            t == token_views(tokens@),
            attributes_at(t, pos as int) == prepend(
                attribute_views(list@),
                attributes_at(t, at as int),
            ),
        decreases tokens.len() - at,
    {
        let ghost before = attribute_views(list@);
        proof {
            attribute_at_advances(t, at as int);
        }
        let (attribute, next) = Attribute::parse(tokens, at)?;
        proof {
            let now = before.push(attribute@);
            match attributes_at(t, next as int) {
                Ok((tail, end)) => {
                    assert(before + (seq![attribute@] + tail) =~= now + tail);
                },
                Err(_) => {},
            }
        }
        list.push(attribute);
        assert(attribute_views(list@) =~= before.push(attribute@));
        at = next;
    }
    let attributes = Attributes { list };
    assert(attributes@ + Seq::<AttributeView>::empty() =~= attributes@);
    Ok((attributes, at))
}

/// The name of the binding that an expression fails on when the scope does
/// not bind it.
pub open spec fn unbound_name(e: ExpressionView) -> Seq<char> {
    match e {
        ExpressionView::Binding(n) => n,
        ExpressionView::Literal(_) => Seq::empty(),
    }
}

/// The value of an expression in a scope, or the error of a binding that
/// the scope lacks.
pub open spec fn value_of(e: ExpressionView, scope: Seq<(Seq<char>, ValueView)>) -> Result<
    ValueView,
    CompileErrorView,
> {
    match evaluated(e, scope) {
        Some(v) => Ok(v),
        None => Err(CompileErrorView::Unbound(unbound_name(e))),
    }
}

/// The value of an expression in a scope, or the error of a binding that
/// the scope lacks.
pub fn evaluate_or_error(e: &Expression, scope: &Scope) -> (r: Result<Value, CompileError>)
    ensures
        match r {
            Ok(v) => value_of(e@, scope@) == Ok::<ValueView, CompileErrorView>(v@),
            Err(x) => value_of(e@, scope@) == Err::<ValueView, CompileErrorView>(x@),
        },
{
    match e {
        Expression::Literal(v) => Ok(v.clone()),
        Expression::Binding(n) => match scope.lookup(n.as_str()) {
            Some(v) => Ok(v),
            None => Err(CompileError::Unbound(n.clone())),
        },
    }
}

/// The value that an attribute has on a host element. A flag without a
/// block is present. Any other attribute takes the value of its expression
/// in the scope: a flag needs a truth value, and the other kinds take the
/// text of the value, to be written as it is or escaped.
pub open spec fn render_value(a: AttributeView, scope: Seq<(Seq<char>, ValueView)>) -> Result<
    AttributeValueView,
    CompileErrorView,
> {
    let name = dash_joined(a.name);
    if a.attr_type == AttributeType::Bool && a.value is None {
        Ok(AttributeValueView::Bool(true))
    } else {
        match value_expression(a) {
            None => Err(CompileErrorView::EmptyBlock(name)),
            Some(e) => match value_of(e, scope) {
                Err(x) => Err(x),
                Ok(v) => match a.attr_type {
                    AttributeType::Bool => match v {
                        ValueView::Bool(b) => Ok(AttributeValueView::Bool(b)),
                        _ => Err(CompileErrorView::NotBool(name)),
                    },
                    AttributeType::Str => Ok(AttributeValueView::Str(value_text(v))),
                    AttributeType::String => Ok(AttributeValueView::Escaped(value_text(v))),
                },
            },
        }
    }
}

/// The attributes of a host element as a map in the order of names: each
/// attribute is set in the order in which it is written, so that of two
/// with one name the later one stays. The first attribute without a value
/// decides the error.
pub open spec fn host_form(attributes: Seq<AttributeView>, scope: Seq<(Seq<char>, ValueView)>)
    -> Result<Seq<Entry>, CompileErrorView>
    decreases attributes.len(),
{
    if attributes.len() == 0 {
        Ok(Seq::empty())
    } else {
        match host_form(attributes.drop_last(), scope) {
            Err(x) => Err(x),
            Ok(map) => match render_value(attributes.last(), scope) {
                Err(x) => Err(x),
                Ok(v) => Ok(inserted(map, dash_joined(attributes.last().name), v)),
            },
        }
    }
}

/// A property of a component: the name of a field and the expression that
/// gives its value.
pub type PropertyView = (Seq<char>, ExpressionView);

/// The attributes of a custom element as the properties of its component,
/// in the order in which they are written. The name of a field is the name
/// of the attribute as it is written.
pub open spec fn property_list(attributes: Seq<AttributeView>) -> Result<
    Seq<PropertyView>,
    CompileErrorView,
>
    decreases attributes.len(),
{
    if attributes.len() == 0 {
        Ok(Seq::empty())
    } else {
        match property_list(attributes.drop_last()) {
            Err(x) => Err(x),
            Ok(list) => match value_expression(attributes.last()) {
                None => Err(CompileErrorView::EmptyBlock(dash_joined(attributes.last().name))),
                Some(e) => Ok(list.push((dash_joined(attributes.last().name), e))),
            },
        }
    }
}

/// The contents of a sequence of properties.
pub open spec fn property_views(s: Seq<(String, Expression)>) -> Seq<PropertyView> {
    Seq::new(s.len(), |i: int| (s[i].0@, s[i].1@))
}

impl Attribute {
    /// The value that the attribute has on a host element.
    pub fn to_render_value(&self, scope: &Scope) -> (r: Result<AttributeValue, CompileError>)
        ensures
            match r {
                Ok(v) => render_value(self@, scope@) == Ok::<_, CompileErrorView>(v@),
                Err(x) => render_value(self@, scope@) == Err::<AttributeValueView, _>(x@),
            },
    {
        let absent = match &self.value {
            Some(_) => false,
            None => true,
        };
        match self.attr_type {
            AttributeType::Bool => {
                if absent {
                    return Ok(AttributeValue::Bool(true));
                }
                let e = self.value_or_error()?;
                let v = evaluate_or_error(&e, scope)?;
                match v {
                    Value::Bool(b) => Ok(AttributeValue::Bool(b)),
                    _ => Err(CompileError::NotBool(self.get_name())),
                }
            },
            AttributeType::Str => {
                let e = self.value_or_error()?;
                let v = evaluate_or_error(&e, scope)?;
                Ok(AttributeValue::Str(v.to_text()))
            },
            AttributeType::String => {
                let e = self.value_or_error()?;
                let v = evaluate_or_error(&e, scope)?;
                Ok(AttributeValue::Escaped(v.to_text()))
            },
        }
    }
}

impl Attributes {
    /// No attributes.
    pub fn empty() -> (r: Self)
        ensures
            r@ == Seq::<AttributeView>::empty(),
    {
        let r = Self { list: Vec::new() };
        assert(r@ =~= Seq::<AttributeView>::empty());
        r
    }

    /// The attributes as the properties of a component: for each attribute,
    /// in the order in which they are written, the name as it is written and
    /// the expression that gives the value.
    pub fn to_properties(&self) -> (r: Result<Vec<(String, Expression)>, CompileError>)
        ensures
            match r {
                Ok(list) => property_list(self@) == Ok::<_, CompileErrorView>(
                    property_views(list@),
                ),
                Err(x) => property_list(self@) == Err::<Seq<PropertyView>, _>(x@),
            },
    {
        let mut properties: Vec<(String, Expression)> = Vec::new();
        let mut i: usize = 0;
        assert(self@.take(0) =~= Seq::<AttributeView>::empty());
        assert(property_views(properties@) =~= Seq::<PropertyView>::empty());
        while i < self.list.len()
            invariant
                i <= self.list.len(),
                property_list(self@.take(i as int)) == Ok::<_, CompileErrorView>(
                    property_views(properties@),
                ),
            decreases self.list.len() - i,
        {
            let ghost before = property_views(properties@);
            proof {
                assert(self@.take(i + 1).drop_last() =~= self@.take(i as int));
                assert(self@.take(i + 1).last() == self.list[i as int]@);
            }
            let attr = &self.list[i];
            let value = match attr.value_or_error() {
                Ok(e) => e,
                Err(x) => {
                    proof {
                        property_list_keeps_error(self@, i + 1);
                    }
                    return Err(x);
                },
            };
            properties.push((attr.get_name(), value));
            assert(property_views(properties@) =~= before.push(
                (dash_joined(attr@.name), value@),
            ));
            i += 1;
        }
        assert(self@.take(i as int) =~= self@);
        Ok(properties)
    }

    /// The attributes as the map of a host element, in the order of names.
    /// Each attribute is set in the order in which it is written, so that
    /// of two with one name the later one stays.
    pub fn to_token_stream(&self, scope: &Scope) -> (r: Result<AttributeMap, CompileError>)
        ensures
            match r {
                Ok(map) => host_form(self@, scope@) == Ok::<_, CompileErrorView>(map@)
                    && map.wf(),
                Err(x) => host_form(self@, scope@) == Err::<Seq<Entry>, _>(x@),
            },
    {
        let mut map = AttributeMap::new();
        let mut i: usize = 0;
        assert(self@.take(0) =~= Seq::<AttributeView>::empty());
        while i < self.list.len()
            invariant
                i <= self.list.len(),
                map.wf(),
                host_form(self@.take(i as int), scope@) == Ok::<_, CompileErrorView>(map@),
            decreases self.list.len() - i,
        {
            proof {
                assert(self@.take(i + 1).drop_last() =~= self@.take(i as int));
                assert(self@.take(i + 1).last() == self.list[i as int]@);
            }
            let attr = &self.list[i];
            let value = match attr.to_render_value(scope) {
                Ok(v) => v,
                Err(x) => {
                    proof {
                        host_form_keeps_error(self@, scope@, i + 1);
                    }
                    return Err(x);
                },
            };
            map.insert(attr.get_name(), value);
            i += 1;
        }
        assert(self@.take(i as int) =~= self@);
        Ok(map)
    }
}

/// An error among the first attributes is the error of the whole list.
pub proof fn property_list_keeps_error(attributes: Seq<AttributeView>, n: int)
    requires
        0 <= n <= attributes.len(),
        property_list(attributes.take(n)) is Err,
    ensures
        property_list(attributes) == property_list(attributes.take(n)),
    decreases attributes.len() - n,
{
    if n < attributes.len() {
        assert(attributes.take(n + 1).drop_last() =~= attributes.take(n));
        property_list_keeps_error(attributes, n + 1);
    } else {
        assert(attributes.take(n) =~= attributes);
    }
}

/// An error among the first attributes is the error of the whole list.
pub proof fn host_form_keeps_error(
    attributes: Seq<AttributeView>,
    scope: Seq<(Seq<char>, ValueView)>,
    n: int,
)
    requires
        0 <= n <= attributes.len(),
        host_form(attributes.take(n), scope) is Err,
    ensures
        host_form(attributes, scope) == host_form(attributes.take(n), scope),
    decreases attributes.len() - n,
{
    if n < attributes.len() {
        assert(attributes.take(n + 1).drop_last() =~= attributes.take(n));
        host_form_keeps_error(attributes, scope, n + 1);
    } else {
        assert(attributes.take(n) =~= attributes);
    }
}

/// The map of a host element is in the order of names.
pub proof fn host_form_is_ordered(
    attributes: Seq<AttributeView>,
    scope: Seq<(Seq<char>, ValueView)>,
)
    ensures
        match host_form(attributes, scope) {
            Ok(map) => ordered(map),
            Err(_) => true,
        },
    decreases attributes.len(),
{
    if attributes.len() > 0 {
        host_form_is_ordered(attributes.drop_last(), scope);
        match host_form(attributes.drop_last(), scope) {
            Ok(map) => match render_value(attributes.last(), scope) {
                Ok(v) => {
                    crate::markup::inserted_is_ordered(
                        map,
                        dash_joined(attributes.last().name),
                        v,
                    );
                },
                Err(_) => {},
            },
            Err(_) => {},
        }
    }
}

} // verus!
