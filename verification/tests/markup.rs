use flow_html::component::NoComponents;
use flow_html::escape_attr;
use flow_html::token::{Punct, Token};
use flow_html::value::{Block, Expression, Scope, Value};
use flow_html::{tree, AttributeMap, AttributeValue, Element, Render, Write, WriteError};

fn p(mark: Punct) -> Token {
    Token::Punct(mark)
}

fn id(name: &str) -> Token {
    Token::Ident(name.to_string())
}

fn text(value: &str) -> Token {
    Token::Block(Block { stmts: vec![Expression::Literal(Value::Text(value.to_string()))] })
}

fn host<T: Render>(tag: &str, attributes: AttributeMap, children: Option<T>) -> Element<T> {
    Element { is_fragment: false, tag: tag.to_string(), attributes, children, reff: None }
}

fn class(value: &str) -> AttributeMap {
    let mut map = AttributeMap::new();
    map.insert("class".to_string(), AttributeValue::Str(value.to_string()));
    map
}

#[test]
fn simple_html() {
    // <p><div class="xyz abc active">"some inner html"</div><div class={"abc"}></div></p>
    let tokens = vec![
        p(Punct::Lt), id("p"), p(Punct::Gt),
        p(Punct::Lt), id("div"), id("class"), p(Punct::Eq), text("xyz abc active"), p(Punct::Gt),
        text("some inner html"),
        p(Punct::Lt), p(Punct::Slash), id("div"), p(Punct::Gt),
        p(Punct::Lt), id("div"), id("class"), p(Punct::Eq), text("abc"), p(Punct::Gt),
        p(Punct::Lt), p(Punct::Slash), id("div"), p(Punct::Gt),
        p(Punct::Lt), p(Punct::Slash), id("p"), p(Punct::Gt),
    ];
    let tree = tree(&tokens, &Scope::new(), &NoComponents).unwrap();
    let result = tree.html();
    println!("html: {}", result);
    assert_eq!(result, "<p><div class=\"xyz abc active\">some inner html</div><div class=\"abc\"></div></p>");
}

#[test]
fn custom_elements() {
    let tree = host(
        "flow-select",
        AttributeMap::new(),
        Some((
            host::<()>("flow-menu-item", class("xyz"), None),
            host::<()>("flow-menu-item", class("abc"), None),
        )),
    );
    let result = tree.html();
    println!("tag: {:#?}", tree.tag);
    println!("html: {}", result);
    assert_eq!(result, "<flow-select><flow-menu-item class=\"xyz\"></flow-menu-item><flow-menu-item class=\"abc\"></flow-menu-item></flow-select>");
}

#[test]
fn without_root_element() {
    // <div class={"xyz"}></div><div class={"abc"}></div>
    let tokens = vec![
        p(Punct::Lt), id("div"), id("class"), p(Punct::Eq), text("xyz"), p(Punct::Gt),
        p(Punct::Lt), p(Punct::Slash), id("div"), p(Punct::Gt),
        p(Punct::Lt), id("div"), id("class"), p(Punct::Eq), text("abc"), p(Punct::Gt),
        p(Punct::Lt), p(Punct::Slash), id("div"), p(Punct::Gt),
    ];
    let tree = tree(&tokens, &Scope::new(), &NoComponents).unwrap();
    let result = tree.html();
    println!("html: {}", result);
    assert_eq!(result, "<div class=\"xyz\"></div><div class=\"abc\"></div>");
}

struct Float(f64);

impl Render for Float {
    fn render<W: Write>(&self, w: &mut W) -> Result<(), WriteError> {
        w.write_str(&format!("{}", self.0))
    }
}

struct FlowSelect<'a, R: Render> {
    active: bool,
    selected: &'a str,
    name: String,
    children: Option<R>,
}

impl<R: Render> Render for FlowSelect<'_, R> {
    fn render<W: Write>(&self, w: &mut W) -> Result<(), WriteError> {
        w.write_str("<flow-select")?;
        if self.active {
            w.write_str(" is-active")?;
        }
        w.write_str(&format!(" selected=\"{}\"", escape_attr(self.selected)))?;
        w.write_str(&format!(" name=\"{}\"", escape_attr(&self.name)))?;
        w.write_str(">")?;
        if let Some(children) = &self.children {
            children.render(w)?;
        }
        w.write_str("</flow-select>")
    }
}

struct FlowMenuItem<'a> {
    text: &'a str,
    value: &'a str,
}

impl Render for FlowMenuItem<'_> {
    fn render<W: Write>(&self, w: &mut W) -> Result<(), WriteError> {
        w.write_str(&format!(
            "<flow-menu-item text=\"{}\" value=\"{}\"></flow-menu-item>",
            escape_attr(self.text),
            escape_attr(self.value)
        ))
    }
}

#[test]
fn complex_html() {
    let world = "world";
    let num = 123;
    let string = "123".to_string();
    let string2 = "string2 value".to_string();
    let user = "123";
    let active = true;
    let disabled = false;
    let selected = "1";
    let name2 = "aaa".to_string();
    let name3 = "bbb".to_string();

    let mut attributes = AttributeMap::new();
    attributes.insert("class".to_string(), AttributeValue::Str("abc".to_string()));
    attributes.insert("active".to_string(), AttributeValue::Bool(active));
    attributes.insert("disabled".to_string(), AttributeValue::Bool(disabled));
    attributes.insert("active2".to_string(), AttributeValue::Bool(false));
    attributes.insert("user".to_string(), AttributeValue::Str(user.to_string()));
    attributes.insert("data-user-name".to_string(), AttributeValue::Str("test-node".to_string()));
    attributes.insert("string2".to_string(), AttributeValue::Str(string2.clone()));

    let mut text_abc = AttributeMap::new();
    text_abc.insert("text".to_string(), AttributeValue::Str("abc".to_string()));

    let tree = host(
        "div",
        attributes,
        Some((
            (
                123,
                "hello",
                world,
                num,
                num,
                num,
                string,
                true,
                Float(1.2 as f64),
                host("h1", AttributeMap::new(), Some(("hello 123", num))),
            ),
            (
                "10",
                11,
                12,
                13,
                14,
                host("h3", AttributeMap::new(), Some("single child")),
                FlowSelect::<()> {
                    active: true,
                    name: name2,
                    selected: "<1&2>\"3",
                    children: None,
                },
                host::<()>("div", class("abc"), None),
                FlowSelect {
                    active: true,
                    name: name3,
                    selected,
                    children: Some((
                        host::<()>("flow", text_abc, None),
                        FlowMenuItem { text: "abc", value: "abc" },
                    )),
                },
            ),
        )),
    );

    let result = tree.html();
    println!("tag: {:#?}", tree.tag);
    println!("html: {}", result);
    assert_eq!(
        result,
        "<div active class=\"abc\" data-user-name=\"test-node\" string2=\"string2 value\" user=\"123\">123helloworld123123123123true1.2<h1>hello 123123</h1>1011121314<h3>single child</h3><flow-select is-active selected=\"&lt;1&amp;2&gt;&quot;3\" name=\"aaa\"></flow-select><div class=\"abc\"></div><flow-select is-active selected=\"1\" name=\"bbb\"><flow text=\"abc\"></flow><flow-menu-item text=\"abc\" value=\"abc\"></flow-menu-item></flow-select></div>"
    );
}
