use flow_html::escape::write_escaped;
use flow_html::text::{comes_before, same_text, write_decimal, write_signed_decimal};
use flow_html::value::{Block, Expression, Scope, Value};
use flow_html::{escape_attr, escape_html, AttributeMap, AttributeValue, Element, Render, Write, WriteError};

#[test]
fn escaping_replaces_the_four_special_characters() {
    assert_eq!(escape_attr("<1&2>\"3"), "&lt;1&amp;2&gt;&quot;3");
    assert_eq!(escape_html("<1&2>\"3"), "&lt;1&amp;2&gt;&quot;3");
    assert_eq!(escape_attr(""), "");
    assert_eq!(escape_attr("plain 'text' é"), "plain 'text' é");
    assert_eq!(escape_attr("&amp;"), "&amp;amp;");
    let mut out = String::from(">");
    write_escaped(">", &mut out);
    assert_eq!(out, ">&gt;");
}

#[test]
fn escaped_text_holds_no_raw_special_character() {
    let escaped = escape_attr("a<b>c\"d&e<<>>&&\"\"");
    assert!(!escaped.contains('<'));
    assert!(!escaped.contains('>'));
    assert!(!escaped.contains('"'));
    for (i, _) in escaped.match_indices('&') {
        let rest = &escaped[i..];
        assert!(
            rest.starts_with("&amp;") || rest.starts_with("&lt;") || rest.starts_with("&gt;") || rest.starts_with("&quot;")
        );
    }
}

#[test]
fn decimal_notation() {
    let mut out = String::new();
    write_decimal(0, &mut out);
    assert_eq!(out, "0");
    write_decimal(9, &mut out);
    write_decimal(10, &mut out);
    write_decimal(1234567890, &mut out);
    assert_eq!(out, "09101234567890");
    let mut out = String::new();
    write_decimal(u128::MAX, &mut out);
    assert_eq!(out, "340282366920938463463374607431768211455");
    let mut out = String::new();
    write_signed_decimal(i128::MIN, &mut out);
    assert_eq!(out, "-170141183460469231731687303715884105728");
    let mut out = String::new();
    write_signed_decimal(-1, &mut out);
    write_signed_decimal(0, &mut out);
    write_signed_decimal(i128::MAX, &mut out);
    assert_eq!(out, "-10170141183460469231731687303715884105727");
}

#[test]
fn scalars_render_in_their_natural_form() {
    assert_eq!(().html(), "");
    assert_eq!("a<b".html(), "a<b");
    assert_eq!("text".to_string().html(), "text");
    assert_eq!(true.html(), "true");
    assert_eq!(false.html(), "false");
    assert_eq!(0u8.html(), "0");
    assert_eq!(255u8.html(), "255");
    assert_eq!(65535u16.html(), "65535");
    assert_eq!(4294967295u32.html(), "4294967295");
    assert_eq!(u64::MAX.html(), "18446744073709551615");
    assert_eq!(u128::MAX.html(), "340282366920938463463374607431768211455");
    assert_eq!(17usize.html(), "17");
    assert_eq!((-128i8).html(), "-128");
    assert_eq!((-32768i16).html(), "-32768");
    assert_eq!(i32::MIN.html(), "-2147483648");
    assert_eq!(i64::MIN.html(), "-9223372036854775808");
    assert_eq!(i128::MAX.html(), "170141183460469231731687303715884105727");
}

#[test]
fn values_render_as_their_scalars_do() {
    assert_eq!(Value::Unit.html(), "");
    assert_eq!(Value::Bool(true).html(), "true");
    assert_eq!(Value::Int(-40).html(), "-40");
    assert_eq!(Value::Text("<b>".to_string()).html(), "<b>");
    assert_eq!(Value::Int(12).to_text(), "12");
}

#[test]
fn tuples_render_their_members_in_order() {
    assert_eq!((1, "a").html(), "1a");
    assert_eq!((1, "a", true).html(), "1atrue");
    assert_eq!((1, 2, 3, 4).html(), "1234");
    assert_eq!((1, 2, 3, 4, 5).html(), "12345");
    assert_eq!((1, 2, 3, 4, 5, 6).html(), "123456");
    assert_eq!((1, 2, 3, 4, 5, 6, 7).html(), "1234567");
    assert_eq!((1, 2, 3, 4, 5, 6, 7, 8).html(), "12345678");
    assert_eq!((1, 2, 3, 4, 5, 6, 7, 8, 9).html(), "123456789");
    assert_eq!((1, 2, 3, 4, 5, 6, 7, 8, 9, "x").html(), "123456789x");
    assert_eq!(((1, 2), ((), "b"), (3, (4, 5))).html(), "12b345");
}

#[test]
fn render_appends_to_what_the_sink_holds() {
    let mut out = String::from("so far: ");
    (7, "-", false).render(&mut out).unwrap();
    assert_eq!(out, "so far: 7-false");
}

struct Full {
    text: String,
    room: usize,
}

impl Write for Full {
    fn write_str(&mut self, s: &str) -> Result<(), WriteError> {
        if self.text.len() + s.len() > self.room {
            return Err(WriteError);
        }
        self.text.push_str(s);
        Ok(())
    }
}

#[test]
fn a_failed_write_stops_rendering() {
    let e = Element {
        is_fragment: false,
        tag: "div".to_string(),
        attributes: AttributeMap::new(),
        children: Some(("abc", "def")),
        reff: None,
    };
    let mut wide = Full { text: String::new(), room: 100 };
    assert!(e.render(&mut wide).is_ok());
    assert_eq!(wide.text, "<div>abcdef</div>");
    let mut narrow = Full { text: String::new(), room: 9 };
    assert!(e.render(&mut narrow).is_err());
    assert_eq!(narrow.text, "<div>abc");
}

#[test]
fn flags_and_quoted_values() {
    let mut attributes = AttributeMap::new();
    attributes.insert("disabled".to_string(), AttributeValue::Bool(false));
    attributes.insert("active".to_string(), AttributeValue::Bool(true));
    attributes.insert("title".to_string(), AttributeValue::Escaped("a\"b".to_string()));
    attributes.insert("raw".to_string(), AttributeValue::Str("a\"b".to_string()));
    assert_eq!(attributes.len(), 4);
    let e: Element<()> = Element { is_fragment: false, tag: "div".to_string(), attributes, children: None, reff: None };
    assert_eq!(e.html(), "<div active raw=\"a\"b\" title=\"a&quot;b\"></div>");
}

#[test]
fn fragment_of_the_typed_tree_is_transparent() {
    let mut attributes = AttributeMap::new();
    attributes.insert("class".to_string(), AttributeValue::Str("gone".to_string()));
    let e = Element { is_fragment: true, tag: "x".to_string(), attributes, children: Some(("a", 1, "b")), reff: None };
    assert_eq!(e.html(), ("a", 1, "b").html());
    let none: Element<()> = Element { is_fragment: true, tag: "x".to_string(), attributes: AttributeMap::new(), children: None, reff: None };
    assert_eq!(none.html(), "");
}

#[test]
fn insert_overwrites_and_keeps_the_order() {
    let mut map = AttributeMap::new();
    for name in ["m", "b", "z", "a", "mm", "B", ""] {
        map.insert(name.to_string(), AttributeValue::Str(name.to_string()));
    }
    map.insert("m".to_string(), AttributeValue::Bool(true));
    let names: Vec<&str> = (0..map.len()).map(|i| map.name_at(i).as_str()).collect();
    assert_eq!(names, vec!["", "B", "a", "b", "m", "mm", "z"]);
    assert!(matches!(map.value_at(4), AttributeValue::Bool(true)));
}

#[test]
fn names_are_ordered_as_strings_are() {
    let names = ["", "a", "A", "ab", "b", "data-x", "data", "é", "z", "zé", "日本"];
    for a in names {
        for b in names {
            assert_eq!(comes_before(a, b), a < b, "{:?} {:?}", a, b);
            assert_eq!(same_text(a, b), a == b);
        }
    }
}

#[test]
fn a_later_binding_shadows_an_earlier_one() {
    let mut scope = Scope::new();
    assert!(scope.lookup("a").is_none());
    scope.bind("a".to_string(), Value::Int(1));
    scope.bind("b".to_string(), Value::Int(2));
    scope.bind("a".to_string(), Value::Int(3));
    assert!(matches!(scope.lookup("a"), Some(Value::Int(3))));
    assert!(matches!(scope.lookup("b"), Some(Value::Int(2))));
    assert!(scope.lookup("c").is_none());
    assert!(matches!(Expression::Binding("b".to_string()).evaluate(&scope), Some(Value::Int(2))));
    assert!(Expression::Binding("c".to_string()).evaluate(&scope).is_none());
    assert!(matches!(Expression::Literal(Value::Unit).evaluate(&scope), Some(Value::Unit)));
}

#[test]
fn a_block_stands_for_its_last_statement() {
    let none = Block { stmts: vec![] };
    assert!(matches!(none.value(), Expression::Literal(Value::Unit)));
    let two = Block { stmts: vec![Expression::Literal(Value::Int(1)), Expression::Binding("b".to_string())] };
    assert!(matches!(two.value(), Expression::Binding(n) if n == "b"));
    let copy = two.clone();
    assert_eq!(copy.stmts.len(), 2);
    assert!(matches!(&copy.stmts[0], Expression::Literal(Value::Int(1))));
}
