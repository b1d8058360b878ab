use binxml_model::binxml::name::BinXmlName;
use binxml_model::model::xml::{XmlAttribute, XmlElement, XmlModel};
use binxml_model::order::Order;
use binxml_model::text::{clone_text, cow_str, order_bytes, order_str, same_str};
use std::borrow::Cow;
use std::cmp::Ordering;

const TEXTS: [&str; 14] = [
    "",
    "a",
    "A",
    "Z",
    "aa",
    "ab",
    "b",
    "level",
    "id",
    "Event",
    "\u{e9}",
    "z\u{e9}",
    "\u{1f600}",
    "\u{ffff}",
];

fn attribute<'a>(name: &'a str, value: &'a str) -> XmlAttribute<'a> {
    XmlAttribute { name: BinXmlName::from_str(name), value: Cow::Borrowed(value) }
}

fn element<'a>(name: &'a str, pairs: &[(&'a str, &'a str)]) -> XmlElement<'a> {
    XmlElement {
        name: BinXmlName::from_str(name),
        attributes: pairs.iter().map(|(n, v)| attribute(n, v)).collect(),
    }
}

fn elements() -> Vec<XmlElement<'static>> {
    vec![
        element("", &[]),
        element("Data", &[]),
        element("Event", &[]),
        element("Event", &[("id", "1")]),
        element("Event", &[("id", "1"), ("level", "2")]),
        element("Event", &[("id", "10")]),
        element("Event", &[("id", "2")]),
        element("Event", &[("level", "2"), ("id", "1")]),
        element("System", &[("a", "")]),
    ]
}

fn events() -> Vec<XmlModel<'static>> {
    let mut all: Vec<XmlModel<'static>> =
        elements().into_iter().map(XmlModel::OpenElement).collect();
    all.push(XmlModel::CloseElement);
    all.push(XmlModel::String(Cow::Borrowed("")));
    all.push(XmlModel::String(Cow::Borrowed("4624")));
    all.push(XmlModel::String(Cow::Owned(String::from("Information"))));
    all.push(XmlModel::EndOfStream);
    all.push(XmlModel::StartOfStream);
    all
}

fn as_order(ordering: Ordering) -> Order {
    match ordering {
        Ordering::Less => Order::Less,
        Ordering::Equal => Order::Equal,
        Ordering::Greater => Order::Greater,
    }
}

#[test]
fn order_converts_to_ordering() {
    assert_eq!(Order::Less.to_ordering(), Ordering::Less);
    assert_eq!(Order::Equal.to_ordering(), Ordering::Equal);
    assert_eq!(Order::Greater.to_ordering(), Ordering::Greater);
}

#[test]
fn bytes_order_is_lexicographic() {
    assert_eq!(order_bytes(&[], &[]), Order::Equal);
    assert_eq!(order_bytes(&[], &[0]), Order::Less);
    assert_eq!(order_bytes(&[0], &[]), Order::Greater);
    assert_eq!(order_bytes(&[1, 2, 3], &[1, 2, 3]), Order::Equal);
    assert_eq!(order_bytes(&[1, 2], &[1, 2, 3]), Order::Less);
    assert_eq!(order_bytes(&[1, 2, 3], &[1, 2]), Order::Greater);
    assert_eq!(order_bytes(&[1, 2, 3], &[1, 3]), Order::Less);
    assert_eq!(order_bytes(&[2], &[1, 255, 255]), Order::Greater);
    assert_eq!(order_bytes(&[127], &[128]), Order::Less);
    assert_eq!(order_bytes(&[255], &[0]), Order::Greater);
}

#[test]
fn text_order_is_byte_wise() {
    assert_eq!(order_str("a", "b"), Order::Less);
    assert_eq!(order_str("b", "a"), Order::Greater);
    assert_eq!(order_str("a", "a"), Order::Equal);
    assert_eq!(order_str("", "a"), Order::Less);
    assert_eq!(order_str("a", "aa"), Order::Less);
    assert_eq!(order_str("Z", "a"), Order::Less);
    assert_eq!(order_str("z", "\u{e9}"), Order::Less);
    assert_eq!(order_str("\u{ffff}", "\u{1f600}"), Order::Less);
    for a in TEXTS {
        for b in TEXTS {
            assert_eq!(order_str(a, b), as_order(a.cmp(b)));
            assert_eq!(order_str(a, b), as_order(a.as_bytes().cmp(b.as_bytes())));
            assert_eq!(same_str(a, b), a == b);
        }
    }
}

#[test]
fn held_text_is_read_and_copied_as_held() {
    let source = String::from("Event");
    let borrowed: Cow<'_, str> = Cow::Borrowed(source.as_str());
    let owned: Cow<'_, str> = Cow::Owned(String::from("Event"));
    assert_eq!(cow_str(&borrowed), "Event");
    assert_eq!(cow_str(&owned), "Event");
    match clone_text(&borrowed) {
        Cow::Borrowed(text) => assert_eq!(text.as_ptr(), source.as_ptr()),
        Cow::Owned(_) => panic!("a borrowed text was duplicated"),
    }
    match clone_text(&owned) {
        Cow::Owned(text) => assert_eq!(text, "Event"),
        Cow::Borrowed(_) => panic!("an owned text came back borrowed"),
    }
}

#[test]
fn names_compare_by_their_characters() {
    let source = String::from("Event");
    let borrowed = BinXmlName::from_str(source.as_str());
    let owned = BinXmlName::from_string(String::from("Event"));
    let held = BinXmlName::new(Cow::Borrowed("Event"));
    assert!(borrowed == owned);
    assert!(owned == held);
    assert!(borrowed != BinXmlName::from_str("event"));
    assert_eq!(owned.as_str(), "Event");
    assert_eq!(borrowed.clone(), borrowed);
    for a in TEXTS {
        for b in TEXTS {
            let left = BinXmlName::from_str(a);
            let right = BinXmlName::from_string(String::from(b));
            assert_eq!(left.partial_cmp(&right), Some(a.cmp(b)));
            assert_eq!(left.order(&right), as_order(a.cmp(b)));
            assert_eq!(left == right, a == b);
            assert_eq!(left < right, a < b);
            assert_eq!(left >= right, a >= b);
        }
    }
}

#[test]
fn attributes_compare_by_name_then_value() {
    assert!(attribute("id", "2") < attribute("level", "1"));
    assert!(attribute("id", "1") < attribute("id", "2"));
    assert!(attribute("id", "1") < attribute("id", "10"));
    assert!(attribute("id", "") < attribute("id", "1"));
    assert!(attribute("id", "1") == attribute("id", "1"));
    assert!(attribute("id", "1") != attribute("id", "2"));
    assert!(attribute("id", "1") != attribute("Id", "1"));
    assert_eq!(attribute("b", "1").partial_cmp(&attribute("a", "2")), Some(Ordering::Greater));
    assert_eq!(attribute("id", "1").order(&attribute("id", "1")), Order::Equal);
    let owned = XmlAttribute {
        name: BinXmlName::from_string(String::from("id")),
        value: Cow::Owned(String::from("1")),
    };
    assert!(owned == attribute("id", "1"));
    for n1 in TEXTS {
        for v1 in ["", "1", "2"] {
            for n2 in TEXTS {
                for v2 in ["", "1", "2"] {
                    let expected = (n1, v1).cmp(&(n2, v2));
                    assert_eq!(
                        attribute(n1, v1).partial_cmp(&attribute(n2, v2)),
                        Some(expected)
                    );
                }
            }
        }
    }
}

#[test]
fn elements_compare_by_name_then_attributes() {
    assert!(element("Data", &[("z", "9")]) < element("Event", &[]));
    assert!(element("Event", &[]) < element("Event", &[("id", "1")]));
    assert!(element("Event", &[("id", "1")]) < element("Event", &[("id", "1"), ("a", "0")]));
    assert!(element("Event", &[("id", "1"), ("z", "9")]) < element("Event", &[("id", "2")]));
    assert!(element("Event", &[("id", "1")]) == element("Event", &[("id", "1")]));
    assert_eq!(
        element("Event", &[("id", "2")]).partial_cmp(&element("Event", &[("id", "1"), ("z", "9")])),
        Some(Ordering::Greater)
    );
    let all = elements();
    for (i, left) in all.iter().enumerate() {
        for (j, right) in all.iter().enumerate() {
            // The samples are listed in ascending order.
            assert_eq!(left.partial_cmp(right), Some(i.cmp(&j)));
            assert_eq!(left.order(right), as_order(i.cmp(&j)));
            assert_eq!(left == right, i == j);
        }
    }
}

#[test]
fn events_compare_by_kind_then_content() {
    assert!(XmlModel::OpenElement(element("Zed", &[])) < XmlModel::CloseElement);
    assert!(XmlModel::CloseElement < XmlModel::String(Cow::Borrowed("")));
    assert!(XmlModel::String(Cow::Borrowed("zzz")) < XmlModel::EndOfStream);
    assert!(XmlModel::EndOfStream < XmlModel::StartOfStream);
    assert!(XmlModel::String(Cow::Borrowed("a")) < XmlModel::String(Cow::Borrowed("b")));
    assert!(
        XmlModel::String(Cow::Borrowed("a")) == XmlModel::String(Cow::Owned(String::from("a")))
    );
    assert!(XmlModel::StartOfStream == XmlModel::StartOfStream);
    assert!(XmlModel::CloseElement != XmlModel::EndOfStream);
    assert!(
        XmlModel::OpenElement(element("Event", &[("id", "1")]))
            == XmlModel::OpenElement(element("Event", &[("id", "1")]))
    );
    assert!(
        XmlModel::OpenElement(element("Event", &[("id", "1")]))
            != XmlModel::OpenElement(element("Event", &[("id", "2")]))
    );
    let all = events();
    for (i, left) in all.iter().enumerate() {
        for (j, right) in all.iter().enumerate() {
            // The samples are listed in ascending order.
            assert_eq!(left.partial_cmp(right), Some(i.cmp(&j)));
            assert_eq!(left == right, i == j);
        }
    }
}

#[test]
fn exchanging_the_sides_reverses_the_order() {
    let all = events();
    for left in &all {
        for right in &all {
            let forth = left.partial_cmp(right).unwrap();
            let back = right.partial_cmp(left).unwrap();
            assert_eq!(back, forth.reverse());
        }
    }
}

#[test]
fn less_chains() {
    let all = events();
    for x in &all {
        for y in &all {
            for z in &all {
                if x < y && y < z {
                    assert!(x < z);
                }
                if x == y && y == z {
                    assert!(x == z);
                }
            }
        }
    }
}

#[test]
fn copies_compare_equal() {
    for event in events() {
        let copy = event.clone();
        assert!(copy == event);
        assert_eq!(copy.partial_cmp(&event), Some(Ordering::Equal));
    }
    let source = element("Event", &[("id", "4624"), ("level", "Information")]);
    let copy = source.clone();
    assert_eq!(copy.name.as_str(), "Event");
    assert_eq!(copy.attributes.len(), 2);
    assert_eq!(copy, source);
    let owned = XmlAttribute {
        name: BinXmlName::from_string(String::from("id")),
        value: Cow::Owned(String::from("UInt32Type(4624)")),
    };
    let copy = owned.clone();
    assert!(matches!(copy.value, Cow::Owned(_)));
    assert_eq!(copy, owned);
}
