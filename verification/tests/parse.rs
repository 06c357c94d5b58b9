use flow_html::attributes::{parse_attributes, Attribute, AttributeName, AttributeNameString, AttributeType};
use flow_html::element::{ClosingTag, Element, Node, Nodes, OpeningTag};
use flow_html::error::{Expected, ParseError};
use flow_html::token::{peek, Punct, Token};
use flow_html::value::{Block, Expression, Value};

fn p(mark: Punct) -> Token {
    Token::Punct(mark)
}

fn id(name: &str) -> Token {
    Token::Ident(name.to_string())
}

fn text(value: &str) -> Token {
    Token::Block(Block { stmts: vec![Expression::Literal(Value::Text(value.to_string()))] })
}

fn syntax(r: Result<(Element, usize), ParseError>) -> (usize, Expected) {
    match r {
        Err(ParseError::Syntax { position, wanted }) => (position, wanted),
        other => panic!("no syntax error: {:?}", other),
    }
}

#[test]
fn mismatched_closing_tag() {
    // <div><span></div>
    let tokens = vec![
        p(Punct::Lt), id("div"), p(Punct::Gt),
        p(Punct::Lt), id("span"), p(Punct::Gt),
        p(Punct::Lt), p(Punct::Slash), id("div"), p(Punct::Gt),
    ];
    match Element::parse(&tokens, 0) {
        Err(ParseError::Mismatch { position, expected, found }) => {
            assert_eq!(position, 3);
            assert_eq!(expected, "span");
            assert_eq!(found, "div");
        }
        other => panic!("no mismatch: {:?}", other),
    }
}

#[test]
fn mismatch_of_the_root_is_reported_at_the_root() {
    // <div></span>
    let tokens = vec![
        p(Punct::Lt), id("div"), p(Punct::Gt),
        p(Punct::Lt), p(Punct::Slash), id("span"), p(Punct::Gt),
    ];
    match Element::parse(&tokens, 0) {
        Err(ParseError::Mismatch { position, expected, found }) => {
            assert_eq!(position, 0);
            assert_eq!(expected, "div");
            assert_eq!(found, "span");
        }
        other => panic!("no mismatch: {:?}", other),
    }
}

#[test]
fn self_closing_element_has_no_children() {
    // <br/> <p>
    let tokens = vec![p(Punct::Lt), id("br"), p(Punct::Slash), p(Punct::Gt), p(Punct::Lt), id("p"), p(Punct::Gt)];
    let (element, next) = Element::parse(&tokens, 0).unwrap();
    assert_eq!(next, 4);
    assert_eq!(element.tag.name, "br");
    assert!(element.tag.self_closing);
    assert!(element.children.is_none());
}

#[test]
fn element_without_anything_between_its_tags_has_no_children() {
    // <p></p>
    let tokens = vec![p(Punct::Lt), id("p"), p(Punct::Gt), p(Punct::Lt), p(Punct::Slash), id("p"), p(Punct::Gt)];
    let (element, next) = Element::parse(&tokens, 0).unwrap();
    assert_eq!(next, 7);
    assert!(!element.tag.self_closing);
    assert!(element.children.is_none());
}

#[test]
fn children_are_kept_in_order() {
    // <p>{"a"}<b/>{"c"}</p>
    let tokens = vec![
        p(Punct::Lt), id("p"), p(Punct::Gt),
        text("a"),
        p(Punct::Lt), id("b"), p(Punct::Slash), p(Punct::Gt),
        text("c"),
        p(Punct::Lt), p(Punct::Slash), id("p"), p(Punct::Gt),
    ];
    let (element, next) = Element::parse(&tokens, 0).unwrap();
    assert_eq!(next, 13);
    let children = element.children.unwrap().list;
    assert_eq!(children.len(), 3);
    assert!(matches!(&children[0], Node::Block(_)));
    assert!(matches!(&children[1], Node::Element(e) if e.tag.name == "b"));
    assert!(matches!(&children[2], Node::Block(_)));
}

#[test]
fn fragment_tags_take_the_reserved_name() {
    // <>{"a"}</>
    let tokens = vec![p(Punct::Lt), p(Punct::Gt), text("a"), p(Punct::Lt), p(Punct::Slash), p(Punct::Gt)];
    let (element, next) = Element::parse(&tokens, 0).unwrap();
    assert_eq!(next, 6);
    assert_eq!(element.tag.name, "x");
    assert!(!element.tag.self_closing);
    assert_eq!(element.tag.attributes.list.len(), 0);
    assert_eq!(element.children.unwrap().list.len(), 1);
}

#[test]
fn fragment_closed_by_a_named_tag_is_a_mismatch() {
    // <></p>
    let tokens = vec![p(Punct::Lt), p(Punct::Gt), p(Punct::Lt), p(Punct::Slash), id("p"), p(Punct::Gt)];
    match Element::parse(&tokens, 0) {
        Err(ParseError::Mismatch { position, expected, found }) => {
            assert_eq!(position, 0);
            assert_eq!(expected, "x");
            assert_eq!(found, "p");
        }
        other => panic!("no mismatch: {:?}", other),
    }
}

#[test]
fn opening_tag_needs_its_tokens() {
    assert_eq!(syntax(Element::parse(&[id("p")], 0)), (0, Expected::Lt));
    assert_eq!(syntax(Element::parse(&[], 0)), (0, Expected::Lt));
    assert_eq!(syntax(Element::parse(&[p(Punct::Lt), text("a")], 0)), (1, Expected::Ident));
    assert_eq!(syntax(Element::parse(&[p(Punct::Lt)], 0)), (1, Expected::Ident));
    // <p / p
    assert_eq!(
        syntax(Element::parse(&[p(Punct::Lt), id("p"), p(Punct::Slash), id("p")], 0)),
        (3, Expected::Gt)
    );
    // <p a  (the attribute list never ends)
    assert_eq!(syntax(Element::parse(&[p(Punct::Lt), id("p"), id("a")], 0)), (3, Expected::Ident));
}

#[test]
fn closing_tag_needs_its_tokens() {
    assert!(matches!(
        ClosingTag::parse(&[id("p")], 0),
        Err(ParseError::Syntax { position: 0, wanted: Expected::Lt })
    ));
    assert!(matches!(
        ClosingTag::parse(&[p(Punct::Lt), id("p")], 0),
        Err(ParseError::Syntax { position: 1, wanted: Expected::Slash })
    ));
    assert!(matches!(
        ClosingTag::parse(&[p(Punct::Lt), p(Punct::Slash), Token::Other], 0),
        Err(ParseError::Syntax { position: 2, wanted: Expected::Ident })
    ));
    assert!(matches!(
        ClosingTag::parse(&[p(Punct::Lt), p(Punct::Slash), id("p"), id("q")], 0),
        Err(ParseError::Syntax { position: 3, wanted: Expected::Gt })
    ));
    let (tag, next) = ClosingTag::parse(&[p(Punct::Lt), p(Punct::Slash), id("p"), p(Punct::Gt)], 0).unwrap();
    assert_eq!(tag.name, "p");
    assert_eq!(next, 4);
}

#[test]
fn unclosed_element_fails_at_the_end_of_the_input() {
    // <p>{"a"}
    let tokens = vec![p(Punct::Lt), id("p"), p(Punct::Gt), text("a")];
    assert_eq!(syntax(Element::parse(&tokens, 0)), (4, Expected::Lt));
}

#[test]
fn a_child_that_is_neither_element_nor_block_is_an_error() {
    // <p> p </p>
    let tokens = vec![p(Punct::Lt), id("p"), p(Punct::Gt), id("p"), p(Punct::Lt), p(Punct::Slash), id("p"), p(Punct::Gt)];
    assert_eq!(syntax(Element::parse(&tokens, 0)), (3, Expected::Block));
}

#[test]
fn attribute_kinds_follow_the_marker() {
    // ?active &title name={"n"} >
    let tokens = vec![
        p(Punct::Question), id("active"),
        p(Punct::Amp), id("title"),
        id("name"), p(Punct::Eq), text("n"),
        p(Punct::Gt),
    ];
    let (attributes, next) = parse_attributes(&tokens, 0).unwrap();
    assert_eq!(next, 7);
    let list = attributes.list;
    assert_eq!(list.len(), 3);
    assert_eq!(list[0].attr_type, AttributeType::Bool);
    assert_eq!(list[0].get_name(), "active");
    assert!(list[0].value.is_none());
    assert_eq!(list[1].attr_type, AttributeType::String);
    assert_eq!(list[1].get_name(), "title");
    assert_eq!(list[2].attr_type, AttributeType::Str);
    assert_eq!(list[2].get_name(), "name");
    assert_eq!(list[2].value.as_ref().unwrap().stmts.len(), 1);
}

#[test]
fn attribute_list_ends_at_a_slash_too() {
    let tokens = vec![id("a"), p(Punct::Slash), p(Punct::Gt)];
    let (attributes, next) = parse_attributes(&tokens, 0).unwrap();
    assert_eq!(next, 1);
    assert_eq!(attributes.list.len(), 1);
}

#[test]
fn attribute_names_are_joined_with_dashes() {
    // data-user-name = {..}
    let tokens = vec![id("data"), p(Punct::Minus), id("user"), p(Punct::Minus), id("name"), p(Punct::Eq), text("v")];
    let (name, next) = AttributeName::parse(&tokens, 0).unwrap();
    assert_eq!(next, 5);
    assert_eq!(name.first, "data");
    assert_eq!(name.rest, vec!["user".to_string(), "name".to_string()]);
    assert_eq!(name.to_string(), "data-user-name");
    let (attribute, next) = Attribute::parse(&tokens, 0).unwrap();
    assert_eq!(next, 7);
    assert_eq!(attribute.get_name(), "data-user-name");
}

#[test]
fn a_name_needs_an_identifier_first_and_after_each_dash() {
    assert!(matches!(
        AttributeName::parse(&[p(Punct::Eq)], 0),
        Err(ParseError::Syntax { position: 0, wanted: Expected::Ident })
    ));
    assert!(matches!(
        AttributeName::parse(&[id("a"), p(Punct::Minus), p(Punct::Gt)], 0),
        Err(ParseError::Syntax { position: 2, wanted: Expected::Ident })
    ));
    assert!(matches!(
        Attribute::parse(&[p(Punct::Question), p(Punct::Question), id("a")], 0),
        Err(ParseError::Syntax { position: 1, wanted: Expected::Ident })
    ));
}

#[test]
fn an_equals_sign_needs_a_block() {
    assert!(matches!(
        Attribute::parse(&[id("a"), p(Punct::Eq), id("b")], 0),
        Err(ParseError::Syntax { position: 2, wanted: Expected::Block })
    ));
}

#[test]
fn opening_tag_with_attributes() {
    // <input ?checked name={"n"} />
    let tokens = vec![
        p(Punct::Lt), id("input"), p(Punct::Question), id("checked"),
        id("name"), p(Punct::Eq), text("n"), p(Punct::Slash), p(Punct::Gt),
    ];
    let (tag, next) = OpeningTag::parse(&tokens, 0).unwrap();
    assert_eq!(next, 9);
    assert_eq!(tag.name, "input");
    assert!(tag.self_closing);
    assert_eq!(tag.attributes.list.len(), 2);
}

#[test]
fn nodes_stop_where_a_closing_tag_begins() {
    // {"a"} <b/> </p>
    let tokens = vec![text("a"), p(Punct::Lt), id("b"), p(Punct::Slash), p(Punct::Gt), p(Punct::Lt), p(Punct::Slash), id("p"), p(Punct::Gt)];
    let (nodes, next) = Nodes::parse(&tokens, 0).unwrap();
    assert_eq!(next, 5);
    assert_eq!(nodes.list.len(), 2);
    let (none, next) = Nodes::parse(&tokens, 5).unwrap();
    assert_eq!(next, 5);
    assert_eq!(none.list.len(), 0);
    let (node, next) = Node::parse(&tokens, 0).unwrap();
    assert_eq!(next, 1);
    assert!(matches!(node, Node::Block(_)));
}

#[test]
fn peek_sees_no_token_past_the_end() {
    let tokens = vec![p(Punct::Lt), id("a")];
    assert!(peek(&tokens, 0, Punct::Lt));
    assert!(!peek(&tokens, 0, Punct::Gt));
    assert!(!peek(&tokens, 1, Punct::Lt));
    assert!(!peek(&tokens, 2, Punct::Lt));
}
