use flow_html::attributes::{parse_attributes, Attribute, AttributeName, AttributeType};
use flow_html::component::{Components, NoComponents};
use flow_html::composite::Composite;
use flow_html::element::Element;
use flow_html::error::{CompileError, Error, Expected, ParseError};
use flow_html::token::{Punct, Token};
use flow_html::value::{Block, Expression, Scope, Value};
use flow_html::{html, tree, AttributeValue, Render};

fn p(mark: Punct) -> Token {
    Token::Punct(mark)
}

fn id(name: &str) -> Token {
    Token::Ident(name.to_string())
}

fn block(stmts: Vec<Expression>) -> Token {
    Token::Block(Block { stmts })
}

fn text(value: &str) -> Token {
    block(vec![Expression::Literal(Value::Text(value.to_string()))])
}

fn flag(value: bool) -> Token {
    block(vec![Expression::Literal(Value::Bool(value))])
}

fn var(name: &str) -> Token {
    block(vec![Expression::Binding(name.to_string())])
}

fn render(tokens: &[Token], scope: &Scope) -> String {
    html(tokens, scope, &NoComponents).unwrap().html()
}

#[test]
fn escaped_attribute_holds_no_raw_special_character() {
    // <a &title={"<1&2>\"3"} />
    let tokens = vec![p(Punct::Lt), id("a"), p(Punct::Amp), id("title"), p(Punct::Eq), text("<1&2>\"3"), p(Punct::Slash), p(Punct::Gt)];
    assert_eq!(render(&tokens, &Scope::new()), "<a title=\"&lt;1&amp;2&gt;&quot;3\"></a>");
}

#[test]
fn plain_attribute_is_written_as_it_is() {
    // <a title={"<1&2>"} />
    let tokens = vec![p(Punct::Lt), id("a"), id("title"), p(Punct::Eq), text("<1&2>"), p(Punct::Slash), p(Punct::Gt)];
    assert_eq!(render(&tokens, &Scope::new()), "<a title=\"<1&2>\"></a>");
}

#[test]
fn boolean_attribute_presence() {
    // <div ?active={true} ?disabled={false}></div>
    let tokens = vec![
        p(Punct::Lt), id("div"),
        p(Punct::Question), id("active"), p(Punct::Eq), flag(true),
        p(Punct::Question), id("disabled"), p(Punct::Eq), flag(false),
        p(Punct::Gt), p(Punct::Lt), p(Punct::Slash), id("div"), p(Punct::Gt),
    ];
    assert_eq!(render(&tokens, &Scope::new()), "<div active></div>");
}

#[test]
fn boolean_attribute_follows_a_binding() {
    // <div ?active={on} ?disabled={off}></div>
    let tokens = vec![
        p(Punct::Lt), id("div"),
        p(Punct::Question), id("active"), p(Punct::Eq), var("on"),
        p(Punct::Question), id("disabled"), p(Punct::Eq), var("off"),
        p(Punct::Slash), p(Punct::Gt),
    ];
    let mut scope = Scope::new();
    scope.bind("on".to_string(), Value::Bool(true));
    scope.bind("off".to_string(), Value::Bool(false));
    assert_eq!(render(&tokens, &scope), "<div active></div>");
}

#[test]
fn boolean_attribute_without_a_value_is_present() {
    // <input ?checked />
    let tokens = vec![p(Punct::Lt), id("input"), p(Punct::Question), id("checked"), p(Punct::Slash), p(Punct::Gt)];
    assert_eq!(render(&tokens, &Scope::new()), "<input checked></input>");
}

#[test]
fn attribute_without_a_value_takes_the_binding_of_its_name() {
    // <div user data-id &note />
    let tokens = vec![
        p(Punct::Lt), id("div"), id("user"),
        id("data"), p(Punct::Minus), id("id"),
        p(Punct::Amp), id("note"),
        p(Punct::Slash), p(Punct::Gt),
    ];
    let mut scope = Scope::new();
    scope.bind("user".to_string(), Value::Text("123".to_string()));
    scope.bind("data-id".to_string(), Value::Int(7));
    scope.bind("note".to_string(), Value::Text("a<b".to_string()));
    assert_eq!(render(&tokens, &scope), "<div data-id=\"7\" note=\"a&lt;b\" user=\"123\"></div>");
}

#[test]
fn attributes_are_written_in_the_order_of_their_names() {
    // <a z={"1"} b={"2"} m={"3"} B={"4"} />
    let tokens = vec![
        p(Punct::Lt), id("a"),
        id("z"), p(Punct::Eq), text("1"),
        id("b"), p(Punct::Eq), text("2"),
        id("m"), p(Punct::Eq), text("3"),
        id("B"), p(Punct::Eq), text("4"),
        p(Punct::Slash), p(Punct::Gt),
    ];
    assert_eq!(render(&tokens, &Scope::new()), "<a B=\"4\" b=\"2\" m=\"3\" z=\"1\"></a>");
}

#[test]
fn the_later_of_two_attributes_with_one_name_stays() {
    // <a k={"1"} j={"2"} k={"3"} />
    let tokens = vec![
        p(Punct::Lt), id("a"),
        id("k"), p(Punct::Eq), text("1"),
        id("j"), p(Punct::Eq), text("2"),
        id("k"), p(Punct::Eq), text("3"),
        p(Punct::Slash), p(Punct::Gt),
    ];
    assert_eq!(render(&tokens, &Scope::new()), "<a j=\"2\" k=\"3\"></a>");
}

#[test]
fn attribute_takes_the_first_statement_and_a_child_the_last() {
    let two = || block(vec![
        Expression::Literal(Value::Text("first".to_string())),
        Expression::Literal(Value::Text("last".to_string())),
    ]);
    // <a k={first; last}>{first; last}</a>
    let tokens = vec![
        p(Punct::Lt), id("a"), id("k"), p(Punct::Eq), two(), p(Punct::Gt),
        two(),
        p(Punct::Lt), p(Punct::Slash), id("a"), p(Punct::Gt),
    ];
    assert_eq!(render(&tokens, &Scope::new()), "<a k=\"first\">last</a>");
}

#[test]
fn an_empty_block_renders_nothing_as_a_child() {
    // <a>{}</a>
    let tokens = vec![p(Punct::Lt), id("a"), p(Punct::Gt), block(vec![]), p(Punct::Lt), p(Punct::Slash), id("a"), p(Punct::Gt)];
    assert_eq!(render(&tokens, &Scope::new()), "<a></a>");
}

#[test]
fn fragment_renders_only_its_children() {
    // <>{"a"}<b/>{7}</>
    let tokens = vec![
        p(Punct::Lt), p(Punct::Gt),
        text("a"),
        p(Punct::Lt), id("b"), p(Punct::Slash), p(Punct::Gt),
        block(vec![Expression::Literal(Value::Int(7))]),
        p(Punct::Lt), p(Punct::Slash), p(Punct::Gt),
    ];
    assert_eq!(render(&tokens, &Scope::new()), "a<b></b>7");
    // <></>
    let empty = vec![p(Punct::Lt), p(Punct::Gt), p(Punct::Lt), p(Punct::Slash), p(Punct::Gt)];
    assert_eq!(render(&empty, &Scope::new()), "");
}

#[test]
fn children_refer_to_bindings() {
    // <p>{greeting}{count}{shown}{nothing}</p>
    let tokens = vec![
        p(Punct::Lt), id("p"), p(Punct::Gt),
        var("greeting"), var("count"), var("shown"), var("nothing"),
        p(Punct::Lt), p(Punct::Slash), id("p"), p(Punct::Gt),
    ];
    let mut scope = Scope::new();
    scope.bind("greeting".to_string(), Value::Text("old".to_string()));
    scope.bind("count".to_string(), Value::Int(-12));
    scope.bind("shown".to_string(), Value::Bool(true));
    scope.bind("nothing".to_string(), Value::Unit);
    scope.bind("greeting".to_string(), Value::Text("hello ".to_string()));
    assert_eq!(render(&tokens, &scope), "<p>hello -12true</p>");
}

#[test]
fn unbound_name_is_an_error() {
    // <p>{missing}</p>
    let tokens = vec![p(Punct::Lt), id("p"), p(Punct::Gt), var("missing"), p(Punct::Lt), p(Punct::Slash), id("p"), p(Punct::Gt)];
    match html(&tokens, &Scope::new(), &NoComponents) {
        Err(Error::Compile(CompileError::Unbound(name))) => assert_eq!(name, "missing"),
        other => panic!("no error: {:?}", other),
    }
    // <p title />
    let tokens = vec![p(Punct::Lt), id("p"), id("title"), p(Punct::Slash), p(Punct::Gt)];
    match html(&tokens, &Scope::new(), &NoComponents) {
        Err(Error::Compile(CompileError::Unbound(name))) => assert_eq!(name, "title"),
        other => panic!("no error: {:?}", other),
    }
}

#[test]
fn flag_needs_a_truth_value() {
    // <p ?on={"yes"} />
    let tokens = vec![p(Punct::Lt), id("p"), p(Punct::Question), id("on"), p(Punct::Eq), text("yes"), p(Punct::Slash), p(Punct::Gt)];
    match html(&tokens, &Scope::new(), &NoComponents) {
        Err(Error::Compile(CompileError::NotBool(name))) => assert_eq!(name, "on"),
        other => panic!("no error: {:?}", other),
    }
}

#[test]
fn attribute_block_needs_a_statement() {
    // <p data-k={} />
    let tokens = vec![p(Punct::Lt), id("p"), id("data"), p(Punct::Minus), id("k"), p(Punct::Eq), block(vec![]), p(Punct::Slash), p(Punct::Gt)];
    match html(&tokens, &Scope::new(), &NoComponents) {
        Err(Error::Compile(CompileError::EmptyBlock(name))) => assert_eq!(name, "data-k"),
        other => panic!("no error: {:?}", other),
    }
}

#[test]
fn the_first_error_in_document_order_is_reported() {
    // <p a={second}>{first}</p> : children are built before attributes
    let tokens = vec![
        p(Punct::Lt), id("p"), id("a"), p(Punct::Eq), var("second"), p(Punct::Gt),
        var("first"),
        p(Punct::Lt), p(Punct::Slash), id("p"), p(Punct::Gt),
    ];
    match html(&tokens, &Scope::new(), &NoComponents) {
        Err(Error::Compile(CompileError::Unbound(name))) => assert_eq!(name, "first"),
        other => panic!("no error: {:?}", other),
    }
}

#[test]
fn html_takes_one_root_and_nothing_after_it() {
    // <a/><b/>
    let tokens = vec![p(Punct::Lt), id("a"), p(Punct::Slash), p(Punct::Gt), p(Punct::Lt), id("b"), p(Punct::Slash), p(Punct::Gt)];
    match html(&tokens, &Scope::new(), &NoComponents) {
        Err(Error::Parse(ParseError::Syntax { position, wanted })) => {
            assert_eq!(position, 4);
            assert_eq!(wanted, Expected::End);
        }
        other => panic!("no error: {:?}", other),
    }
    assert_eq!(tree(&tokens, &Scope::new(), &NoComponents).unwrap().html(), "<a></a><b></b>");
}

#[test]
fn tree_takes_the_whole_input() {
    // <a/></a>
    let tokens = vec![p(Punct::Lt), id("a"), p(Punct::Slash), p(Punct::Gt), p(Punct::Lt), p(Punct::Slash), id("a"), p(Punct::Gt)];
    match tree(&tokens, &Scope::new(), &NoComponents) {
        Err(Error::Parse(ParseError::Syntax { position, wanted })) => {
            assert_eq!(position, 4);
            assert_eq!(wanted, Expected::End);
        }
        other => panic!("no error: {:?}", other),
    }
    assert_eq!(tree(&[], &Scope::new(), &NoComponents).unwrap().html(), "");
    assert_eq!(tree(&[text("only")], &Scope::new(), &NoComponents).unwrap().html(), "only");
}

#[test]
fn parse_errors_come_through_html() {
    // <div><span></div>
    let tokens = vec![
        p(Punct::Lt), id("div"), p(Punct::Gt),
        p(Punct::Lt), id("span"), p(Punct::Gt),
        p(Punct::Lt), p(Punct::Slash), id("div"), p(Punct::Gt),
    ];
    match html(&tokens, &Scope::new(), &NoComponents) {
        Err(Error::Parse(ParseError::Mismatch { position, expected, found })) => {
            assert_eq!((position, expected.as_str(), found.as_str()), (3, "span", "div"));
        }
        other => panic!("no error: {:?}", other),
    }
}

struct Table;

impl Components for Table {
    fn construct(
        &self,
        name: &str,
        properties: Vec<(String, Value)>,
        children: Option<Composite>,
    ) -> Option<Composite> {
        if name != "Card" {
            return None;
        }
        let mut out = String::from("[card");
        for (field, value) in &properties {
            out.push_str(&format!(" {}={}", field, value.html()));
        }
        out.push(']');
        if let Some(inner) = &children {
            out.push_str(&inner.html());
        }
        out.push_str("[/card]");
        Some(Composite::Value(Value::Text(out)))
    }
}

#[test]
fn capitalized_tag_goes_to_its_component() {
    // <div><Card title={"t"} size &data-k ?on>{"in"}</Card></div>
    let tokens = vec![
        p(Punct::Lt), id("div"), p(Punct::Gt),
        p(Punct::Lt), id("Card"),
        id("title"), p(Punct::Eq), text("t"),
        id("size"),
        p(Punct::Amp), id("data"), p(Punct::Minus), id("k"),
        p(Punct::Question), id("on"),
        p(Punct::Gt),
        text("in"),
        p(Punct::Lt), p(Punct::Slash), id("Card"), p(Punct::Gt),
        p(Punct::Lt), p(Punct::Slash), id("div"), p(Punct::Gt),
    ];
    let mut scope = Scope::new();
    scope.bind("size".to_string(), Value::Int(3));
    scope.bind("data-k".to_string(), Value::Text("<".to_string()));
    scope.bind("on".to_string(), Value::Bool(false));
    let result = html(&tokens, &scope, &Table).unwrap().html();
    assert_eq!(result, "<div>[card title=t size=3 data-k=< on=false]in[/card]</div>");
}

#[test]
fn lower_case_tag_is_a_host_element_whatever_the_table_holds() {
    // <card/>
    let tokens = vec![p(Punct::Lt), id("card"), p(Punct::Slash), p(Punct::Gt)];
    assert_eq!(html(&tokens, &Scope::new(), &Table).unwrap().html(), "<card></card>");
    let (element, _) = Element::parse(&tokens, 0).unwrap();
    assert!(!element.is_custom_element());
}

#[test]
fn unknown_component_is_an_error() {
    // <Other/>
    let tokens = vec![p(Punct::Lt), id("Other"), p(Punct::Slash), p(Punct::Gt)];
    let (element, _) = Element::parse(&tokens, 0).unwrap();
    assert!(element.is_custom_element());
    match html(&tokens, &Scope::new(), &Table) {
        Err(Error::Compile(CompileError::UnknownComponent(name))) => assert_eq!(name, "Other"),
        other => panic!("no error: {:?}", other),
    }
    match html(&tokens, &Scope::new(), &NoComponents) {
        Err(Error::Compile(CompileError::UnknownComponent(name))) => assert_eq!(name, "Other"),
        other => panic!("no error: {:?}", other),
    }
}

#[test]
fn properties_keep_the_order_and_the_expressions() {
    // title={"t"} size ?on={flag}
    let tokens = vec![
        id("title"), p(Punct::Eq), text("t"),
        id("size"),
        p(Punct::Question), id("on"), p(Punct::Eq), var("flag"),
        p(Punct::Gt),
    ];
    let (attributes, _) = parse_attributes(&tokens, 0).unwrap();
    let properties = attributes.to_properties().unwrap();
    assert_eq!(properties.len(), 3);
    assert_eq!(properties[0].0, "title");
    assert!(matches!(&properties[0].1, Expression::Literal(Value::Text(t)) if t == "t"));
    assert_eq!(properties[1].0, "size");
    assert!(matches!(&properties[1].1, Expression::Binding(n) if n == "size"));
    assert_eq!(properties[2].0, "on");
    assert!(matches!(&properties[2].1, Expression::Binding(n) if n == "flag"));
}

#[test]
fn host_form_is_a_map_in_the_order_of_names() {
    let tokens = vec![
        id("title"), p(Punct::Eq), text("t"),
        p(Punct::Amp), id("alt"), p(Punct::Eq), text("a"),
        p(Punct::Question), id("on"),
        p(Punct::Gt),
    ];
    let (attributes, _) = parse_attributes(&tokens, 0).unwrap();
    let map = attributes.to_token_stream(&Scope::new()).unwrap();
    assert_eq!(map.len(), 3);
    assert_eq!(map.name_at(0), "alt");
    assert!(matches!(map.value_at(0), AttributeValue::Escaped(v) if v == "a"));
    assert_eq!(map.name_at(1), "on");
    assert!(matches!(map.value_at(1), AttributeValue::Bool(true)));
    assert_eq!(map.name_at(2), "title");
    assert!(matches!(map.value_at(2), AttributeValue::Str(v) if v == "t"));
}

#[test]
fn value_of_an_attribute() {
    let name = || AttributeName { first: "a".to_string(), rest: vec!["b".to_string()] };
    let bare = Attribute::new(name(), AttributeType::Str, None);
    assert!(matches!(bare.get_value(), Expression::Binding(n) if n == "a-b"));
    let given = Attribute::new(
        name(),
        AttributeType::Str,
        Some(Block { stmts: vec![Expression::Literal(Value::Int(1)), Expression::Literal(Value::Int(2))] }),
    );
    assert!(matches!(given.get_value(), Expression::Literal(Value::Int(1))));
    let empty = Attribute::new(name(), AttributeType::Str, Some(Block { stmts: vec![] }));
    assert!(matches!(empty.value_or_error(), Err(CompileError::EmptyBlock(n)) if n == "a-b"));
}
