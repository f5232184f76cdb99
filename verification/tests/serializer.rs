//! One element through the serializer.

use jsx_string::error::{MalformedInput, TransformError, UnsupportedConstruct};
use jsx_string::markup::{
    Attr, AttrName, AttrValue, Child, Element, ElementName, ExprId, Span,
};
use jsx_string::serialize::serialize_jsx_element_to_string_vec;
use jsx_string::template::Slot;

fn el(name: &str, attrs: Vec<Attr>, children: Vec<Child>) -> Element {
    Element {
        span: Span { lo: 1, hi: 2 },
        name: ElementName::Ident(name.to_string()),
        attrs,
        self_closing: false,
        children,
    }
}

/// `<name attrs />`
fn closed(name: &str, attrs: Vec<Attr>) -> Element {
    Element { self_closing: true, ..el(name, attrs, vec![]) }
}

fn txt(value: &str) -> Child {
    Child::Text(value.to_string())
}

fn named(name: &str, value: Option<AttrValue>) -> Attr {
    Attr::Named { name: AttrName::Ident(name.to_string()), value }
}

fn string(name: &str, value: &str) -> Attr {
    named(name, Some(AttrValue::Str(value.to_string())))
}

fn unsupported(what: UnsupportedConstruct) -> TransformError {
    TransformError::UnsupportedConstruct(what)
}

fn malformed(what: MalformedInput) -> TransformError {
    TransformError::MalformedInput(what)
}

fn ok(element: Element) -> (Vec<String>, Vec<Slot>) {
    serialize_jsx_element_to_string_vec(element).unwrap()
}

fn err(element: Element) -> TransformError {
    serialize_jsx_element_to_string_vec(element).unwrap_err()
}

#[test]
fn static_element_is_one_fragment() {
    let (strings, slots) = ok(el(
        "a",
        vec![string("href", "/x"), named("download", None), string("className", "k")],
        vec![txt("go "), Child::EmptyExpr, txt("there")],
    ));
    assert_eq!(strings, vec![r#"<a href="/x" download class="k">go there</a>"#]);
    assert_eq!(slots, vec![]);
}

#[test]
fn element_without_anything() {
    let (strings, slots) = ok(el("div", vec![], vec![]));
    assert_eq!(strings, vec!["<div></div>"]);
    assert!(slots.is_empty());
}

#[test]
fn one_fragment_more_than_slots() {
    let elements = vec![
        el("div", vec![], vec![]),
        el("div", vec![Attr::Spread(ExprId(0))], vec![]),
        el("p", vec![], vec![Child::Ident(ExprId(0)), Child::Ident(ExprId(1))]),
        el(
            "img",
            vec![named("src", Some(AttrValue::Expr(ExprId(3)))), Attr::Spread(ExprId(4))],
            vec![],
        ),
        el(
            "button",
            vec![string("class", "btn"), named("onClick", Some(AttrValue::Expr(ExprId(1))))],
            vec![txt("Hello "), Child::Ident(ExprId(0)), txt("!")],
        ),
    ];
    let expected_slots = [0, 1, 2, 2, 2];
    for (element, n) in elements.into_iter().zip(expected_slots.iter()) {
        let (strings, slots) = ok(element);
        assert_eq!(slots.len(), *n);
        assert_eq!(strings.len(), slots.len() + 1);
    }
}

#[test]
fn void_element_with_and_without_closing_tag() {
    // `<br />` and `<br></br>`
    let short = ok(closed("br", vec![]));
    let long = ok(el("br", vec![], vec![]));
    assert_eq!(short.0, vec!["<br />"]);
    assert!(short.1.is_empty());
    assert_eq!(long, short);
}

#[test]
fn other_element_with_and_without_closing_tag() {
    // `<div class="a" />` and `<div class="a"></div>`
    let short = ok(closed("div", vec![string("class", "a")]));
    let long = ok(el("div", vec![string("class", "a")], vec![]));
    assert_eq!(short.0, vec![r#"<div class="a"></div>"#]);
    assert_eq!(long, short);
}

#[test]
fn void_element_ignores_children() {
    let bare = ok(el("hr", vec![string("class", "rule")], vec![]));
    let with_children = ok(el(
        "hr",
        vec![string("class", "rule")],
        vec![txt("text"), Child::Ident(ExprId(0)), Child::Element, Child::Spread],
    ));
    assert_eq!(bare.0, vec![r#"<hr class="rule" />"#]);
    assert_eq!(with_children, bare);
}

#[test]
fn void_element_with_dynamic_attributes() {
    let (strings, slots) = ok(el(
        "input",
        vec![string("type", "text"), named("value", Some(AttrValue::Expr(ExprId(5))))],
        vec![],
    ));
    assert_eq!(strings, vec![r#"<input type="text""#, " />"]);
    assert_eq!(slots, vec![Slot::KeyValue { name: "value".to_string(), value: ExprId(5) }]);
}

#[test]
fn spread_between_static_attributes() {
    let (strings, slots) = ok(el(
        "div",
        vec![string("foo", "1"), Attr::Spread(ExprId(7)), string("bar", "2")],
        vec![txt("foo")],
    ));
    assert_eq!(strings, vec![r#"<div foo="1" "#, r#" bar="2">foo</div>"#]);
    assert_eq!(slots, vec![Slot::Spread(ExprId(7))]);
}

#[test]
fn named_dynamic_attribute_adds_no_text() {
    let (strings, slots) = ok(el(
        "label",
        vec![named("htmlFor", Some(AttrValue::Expr(ExprId(2))))],
        vec![txt("x")],
    ));
    assert_eq!(strings, vec!["<label", ">x</label>"]);
    assert_eq!(slots, vec![Slot::KeyValue { name: "for".to_string(), value: ExprId(2) }]);
}

#[test]
fn slots_keep_source_order() {
    let (strings, slots) = ok(el(
        "button",
        vec![
            named("onClick", Some(AttrValue::Expr(ExprId(3)))),
            Attr::Spread(ExprId(1)),
            named("disabled", None),
        ],
        vec![Child::Ident(ExprId(2)), txt(" and "), Child::Ident(ExprId(0))],
    ));
    assert_eq!(strings, vec!["<button", " ", " disabled>", " and ", "</button>"]);
    assert_eq!(
        slots,
        vec![
            Slot::KeyValue { name: "onClick".to_string(), value: ExprId(3) },
            Slot::Spread(ExprId(1)),
            Slot::Expr(ExprId(2)),
            Slot::Expr(ExprId(0)),
        ]
    );
}

#[test]
fn neighbouring_holes_leave_an_empty_fragment() {
    let (strings, slots) =
        ok(el("p", vec![], vec![Child::Ident(ExprId(0)), Child::Ident(ExprId(1))]));
    assert_eq!(strings, vec!["<p>", "", "</p>"]);
    assert_eq!(slots, vec![Slot::Expr(ExprId(0)), Slot::Expr(ExprId(1))]);
}

#[test]
fn empty_expression_child_is_skipped() {
    let (strings, slots) =
        ok(el("p", vec![], vec![txt("a"), Child::EmptyExpr, Child::EmptyExpr, txt("b")]));
    assert_eq!(strings, vec!["<p>ab</p>"]);
    assert!(slots.is_empty());
}

#[test]
fn text_is_kept_verbatim() {
    let (strings, _) = ok(el("pre", vec![string("title", "")], vec![txt("  a\n <b> \"q\" ")]));
    assert_eq!(strings, vec!["<pre title=\"\">  a\n <b> \"q\" </pre>"]);
}

#[test]
fn tag_that_is_no_identifier_is_refused() {
    let member = Element { name: ElementName::MemberExpr, ..closed("a", vec![]) };
    let namespaced = Element { name: ElementName::Namespaced, ..closed("a", vec![]) };
    assert_eq!(err(member), unsupported(UnsupportedConstruct::ElementName));
    assert_eq!(err(namespaced), unsupported(UnsupportedConstruct::ElementName));
}

#[test]
fn namespaced_attribute_is_refused() {
    let element = el(
        "a",
        vec![Attr::Named {
            name: AttrName::Namespaced,
            value: Some(AttrValue::Str("foo".to_string())),
        }],
        vec![txt("foo")],
    );
    assert_eq!(err(element), unsupported(UnsupportedConstruct::NamespacedAttribute));
}

#[test]
fn literal_attribute_that_is_no_string_is_refused() {
    let element = el("div", vec![named("tabIndex", Some(AttrValue::Literal))], vec![]);
    assert_eq!(err(element), unsupported(UnsupportedConstruct::NonStringLiteralAttribute));
}

#[test]
fn empty_attribute_expression_is_malformed() {
    let element = el("div", vec![named("id", Some(AttrValue::EmptyExpr))], vec![]);
    assert_eq!(err(element), malformed(MalformedInput::EmptyAttributeExpression));
}

#[test]
fn markup_as_attribute_value_is_malformed() {
    let element = el("div", vec![named("icon", Some(AttrValue::Element))], vec![]);
    assert_eq!(err(element), malformed(MalformedInput::MarkupAttributeValue));
    let element = el("div", vec![named("icon", Some(AttrValue::Fragment))], vec![]);
    assert_eq!(err(element), malformed(MalformedInput::MarkupAttributeValue));
}

#[test]
fn unsupported_children_are_refused() {
    assert_eq!(
        err(el("div", vec![], vec![Child::Expr])),
        unsupported(UnsupportedConstruct::NonIdentifierChild)
    );
    assert_eq!(
        err(el("div", vec![], vec![txt("foo"), Child::Element])),
        unsupported(UnsupportedConstruct::NestedElement)
    );
    assert_eq!(
        err(el("div", vec![], vec![Child::Fragment])),
        unsupported(UnsupportedConstruct::NestedFragment)
    );
    assert_eq!(
        err(el("div", vec![], vec![Child::Spread])),
        unsupported(UnsupportedConstruct::SpreadChild)
    );
}

#[test]
fn first_refused_part_decides_the_error() {
    // The attributes come before the children.
    let element = el("div", vec![named("a", Some(AttrValue::Literal))], vec![Child::Element]);
    assert_eq!(err(element), unsupported(UnsupportedConstruct::NonStringLiteralAttribute));
    // Among the attributes, and among the children, the first one.
    let element = el(
        "div",
        vec![
            string("ok", "1"),
            named("a", Some(AttrValue::EmptyExpr)),
            named("b", Some(AttrValue::Literal)),
        ],
        vec![],
    );
    assert_eq!(err(element), malformed(MalformedInput::EmptyAttributeExpression));
    let element = el("div", vec![], vec![txt("t"), Child::Spread, Child::Expr]);
    assert_eq!(err(element), unsupported(UnsupportedConstruct::SpreadChild));
    // The name of an attribute comes before its value.
    let element = el(
        "div",
        vec![Attr::Named { name: AttrName::Namespaced, value: Some(AttrValue::EmptyExpr) }],
        vec![],
    );
    assert_eq!(err(element), unsupported(UnsupportedConstruct::NamespacedAttribute));
    // The tag comes before everything.
    let element = Element {
        name: ElementName::MemberExpr,
        ..el("a", vec![named("a", Some(AttrValue::Literal))], vec![Child::Element])
    };
    assert_eq!(err(element), unsupported(UnsupportedConstruct::ElementName));
}

#[test]
fn refused_attribute_of_a_void_element() {
    let element = el("img", vec![named("alt", Some(AttrValue::Literal))], vec![]);
    assert_eq!(err(element), unsupported(UnsupportedConstruct::NonStringLiteralAttribute));
}
