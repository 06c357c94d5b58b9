use flow_html::composite::{encode, Composite, WIDTH};
use flow_html::value::Value;
use flow_html::Render;

fn numbers(n: i128) -> Vec<Composite> {
    (0..n).map(|i| Composite::Value(Value::Int(i))).collect()
}

fn concatenation(n: i128) -> String {
    (0..n).map(|i| format!("{}", i)).collect()
}

fn members(c: &Composite) -> &Vec<Composite> {
    match c {
        Composite::Tuple(v) => v,
        other => panic!("no tuple: {:?}", other),
    }
}

fn widest(c: &Composite) -> usize {
    match c {
        Composite::Tuple(v) => v.iter().map(widest).max().unwrap_or(0).max(v.len()),
        _ => 0,
    }
}

#[test]
fn width_is_ten() {
    assert_eq!(WIDTH, 10);
}

#[test]
fn one_node_stands_for_itself() {
    let c = encode(numbers(1));
    assert!(matches!(c, Composite::Value(Value::Int(0))));
    assert_eq!(c.html(), "0");
}

#[test]
fn no_node_gives_the_empty_tuple() {
    let c = encode(numbers(0));
    assert_eq!(members(&c).len(), 0);
    assert_eq!(c.html(), "");
}

#[test]
fn two_nodes_make_one_chunk_in_the_outer_tuple() {
    let c = encode(numbers(2));
    let outer = members(&c);
    assert_eq!(outer.len(), 1);
    assert_eq!(members(&outer[0]).len(), 2);
    assert_eq!(c.html(), "01");
}

#[test]
fn ten_nodes_fill_one_chunk() {
    let c = encode(numbers(10));
    let outer = members(&c);
    assert_eq!(outer.len(), 1);
    assert_eq!(members(&outer[0]).len(), 10);
    assert_eq!(c.html(), concatenation(10));
}

#[test]
fn eleven_nodes_make_two_chunks() {
    let c = encode(numbers(11));
    let outer = members(&c);
    assert_eq!(outer.len(), 2);
    assert_eq!(members(&outer[0]).len(), 10);
    assert_eq!(members(&outer[1]).len(), 1);
    assert_eq!(c.html(), concatenation(11));
}

#[test]
fn a_hundred_nodes_fold_into_one_tuple_of_ten_chunks() {
    let c = encode(numbers(100));
    let outer = members(&c);
    assert_eq!(outer.len(), 1);
    let folded = members(&outer[0]);
    assert_eq!(folded.len(), 10);
    for chunk in folded {
        assert_eq!(members(chunk).len(), 10);
    }
    assert_eq!(c.html(), concatenation(100));
}

#[test]
fn a_hundred_and_one_nodes_put_a_chunk_beside_the_folded_tuple() {
    let c = encode(numbers(101));
    let outer = members(&c);
    assert_eq!(outer.len(), 2);
    assert_eq!(members(&outer[0]).len(), 10);
    assert_eq!(members(&outer[1]).len(), 1);
    assert_eq!(c.html(), concatenation(101));
}

#[test]
fn a_folded_tuple_is_folded_again_with_nine_more_chunks() {
    let c = encode(numbers(190));
    let outer = members(&c);
    assert_eq!(outer.len(), 1);
    let second = members(&outer[0]);
    assert_eq!(second.len(), 10);
    assert_eq!(members(&second[0]).len(), 10);
    assert_eq!(members(&members(&second[0])[0]).len(), 10);
    assert_eq!(members(&second[1]).len(), 10);
    assert!(matches!(members(&second[1])[0], Composite::Value(_)));
    assert_eq!(c.html(), concatenation(190));
}

#[test]
fn encoding_keeps_order_and_width_for_every_length() {
    for n in 0..260 {
        let c = encode(numbers(n));
        assert_eq!(c.html(), concatenation(n));
        assert!(widest(&c) <= WIDTH);
    }
}
