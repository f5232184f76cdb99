//! Whole units through the transform, compared with the source text that a
//! code generator prints for the result.

use jsx_string::call::{CallArg, RenderCall};
use jsx_string::markup::{
    Attr, AttrName, AttrValue, Child, Element, ElementName, Expr, ExprId, Fragment, Span,
};
use jsx_string::template::Slot;
use jsx_string::transform::{JsxString, Rewrite};
use jsx_string::unit::{ModuleItem, StmtId};

/// One statement `const <binding> = <init>;` of a unit.
struct Const {
    binding: &'static str,
    init: Expr,
}

/// A unit: its statements, and the source text of the expressions that the
/// markup refers to by `ExprId`.
struct Unit {
    stmts: Vec<Const>,
    exprs: Vec<&'static str>,
}

fn element(name: &str, attrs: Vec<Attr>, children: Vec<Child>) -> Expr {
    Expr::Element(Element {
        span: Span { lo: 0, hi: 0 },
        name: ElementName::Ident(name.to_string()),
        attrs,
        self_closing: false,
        children,
    })
}

/// `<name attrs />`
fn self_closing(name: &str, attrs: Vec<Attr>) -> Expr {
    Expr::Element(Element {
        span: Span { lo: 0, hi: 0 },
        name: ElementName::Ident(name.to_string()),
        attrs,
        self_closing: true,
        children: vec![],
    })
}

fn text(value: &str) -> Child {
    Child::Text(value.to_string())
}

fn string_attr(name: &str, value: &str) -> Attr {
    Attr::Named {
        name: AttrName::Ident(name.to_string()),
        value: Some(AttrValue::Str(value.to_string())),
    }
}

fn boolean_attr(name: &str) -> Attr {
    Attr::Named { name: AttrName::Ident(name.to_string()), value: None }
}

fn dynamic_attr(name: &str, expr: usize) -> Attr {
    Attr::Named { name: AttrName::Ident(name.to_string()), value: Some(AttrValue::Expr(ExprId(expr))) }
}

fn quoted(s: &str) -> String {
    if s.contains('"') {
        format!("'{}'", s)
    } else {
        format!("\"{}\"", s)
    }
}

fn print_slot(slot: &Slot, exprs: &[&str]) -> String {
    match slot {
        Slot::KeyValue { name, value } => format!("{{\n  \"{}\": {}\n}}", name, exprs[value.0]),
        Slot::Spread(expr) => format!("{{\n  ...{}\n}}", exprs[expr.0]),
        Slot::Expr(expr) => exprs[expr.0].to_string(),
    }
}

fn print_call(call: &RenderCall, exprs: &[&str]) -> String {
    let args: Vec<String> = call
        .args
        .iter()
        .map(|arg| match arg {
            CallArg::Template(name) => name.clone(),
            CallArg::Null => "null".to_string(),
            CallArg::Slot(slot) => print_slot(slot, exprs),
        })
        .collect();
    format!("{}({})", call.callee, args.join(", "))
}

fn print_item(item: &ModuleItem, bindings: &[&str], inits: &[String]) -> String {
    match item {
        ModuleItem::Template(decl) => {
            let elems: Vec<String> =
                decl.fragments.iter().map(|f| format!("  {}", quoted(f))).collect();
            format!("const {} = [\n{}\n];\n", decl.name, elems.join(",\n"))
        }
        ModuleItem::Stmt(id) => format!("const {} = {};\n", bindings[id.0], inits[id.0]),
    }
}

/// Walks the unit as the traversal does, one initializer after the other,
/// hoists the templates, and prints the unit that results.
fn transform(mut transform: JsxString, unit: Unit) -> String {
    let mut bindings: Vec<&str> = Vec::new();
    let mut inits: Vec<String> = Vec::new();
    let mut body: Vec<ModuleItem> = Vec::new();
    for (i, stmt) in unit.stmts.into_iter().enumerate() {
        let init = match transform.visit_mut_expr(stmt.init).unwrap() {
            Rewrite::Call(call) => print_call(&call, &unit.exprs),
            Rewrite::Null(_) => "null".to_string(),
            Rewrite::Keep => panic!("the initializer is no markup"),
        };
        bindings.push(stmt.binding);
        inits.push(init);
        body.push(ModuleItem::Stmt(StmtId(i)));
    }
    let hoisted = transform.visit_mut_module(body);
    hoisted.iter().map(|item| print_item(item, &bindings, &inits)).collect()
}

fn test_transform(transform_state: JsxString, src: &str, unit: Unit, expected_output: &str) {
    let output = transform(transform_state, unit);
    assert_eq!(output, format!("{}\n", expected_output), "for the unit:\n{}", src);
}

#[test]
fn basic_test() {
    test_transform(
        JsxString::default(),
        r#"const a = <div>Hello!</div>;
const b = <div>Hello {name}!</div>;
const c = <button class="btn" onClick={onClick}>Hello {name}!</button>;
"#,
        Unit {
            stmts: vec![
                Const { binding: "a", init: element("div", vec![], vec![text("Hello!")]) },
                Const {
                    binding: "b",
                    init: element(
                        "div",
                        vec![],
                        vec![text("Hello "), Child::Ident(ExprId(0)), text("!")],
                    ),
                },
                Const {
                    binding: "c",
                    init: element(
                        "button",
                        vec![string_attr("class", "btn"), dynamic_attr("onClick", 1)],
                        vec![text("Hello "), Child::Ident(ExprId(0)), text("!")],
                    ),
                },
            ],
            exprs: vec!["name", "onClick"],
        },
        r#"const $$_tpl_1 = [
  "<div>Hello!</div>"
];
const $$_tpl_2 = [
  "<div>Hello ",
  "!</div>"
];
const $$_tpl_3 = [
  '<button class="btn"',
  ">Hello ",
  "!</button>"
];
const a = renderFunction($$_tpl_1, null);
const b = renderFunction($$_tpl_2, name);
const c = renderFunction($$_tpl_3, {
  "onClick": onClick
}, name);"#,
    );
}

#[test]
fn convert_self_closing_test() {
    test_transform(
        JsxString::default(),
        r#"const a = <div />;"#,
        Unit {
            stmts: vec![Const { binding: "a", init: self_closing("div", vec![]) }],
            exprs: vec![],
        },
        r#"const $$_tpl_1 = [
  "<div></div>"
];
const a = renderFunction($$_tpl_1, null);"#,
    );

    // Void elements
    test_transform(
        JsxString::default(),
        r#"const a = <br></br>;"#,
        Unit {
            stmts: vec![Const { binding: "a", init: element("br", vec![], vec![]) }],
            exprs: vec![],
        },
        r#"const $$_tpl_1 = [
  "<br />"
];
const a = renderFunction($$_tpl_1, null);"#,
    );
}

#[test]
fn normalize_attr_name_test() {
    let mappings: Vec<(String, String)> = vec![
        ("htmlFor".to_string(), "for".to_string()),
        ("className".to_string(), "class".to_string()),
    ];

    for mapping in mappings.iter() {
        test_transform(
            JsxString::default(),
            format!("const a = <label {}=\"foo\">label</label>", &mapping.0).as_str(),
            Unit {
                stmts: vec![Const {
                    binding: "a",
                    init: element(
                        "label",
                        vec![string_attr(&mapping.0, "foo")],
                        vec![text("label")],
                    ),
                }],
                exprs: vec![],
            },
            format!(
                "const $$_tpl_1 = [\n  '<label {}=\"foo\">label</label>'\n];\nconst a = renderFunction($$_tpl_1, null);",
                &mapping.1
            )
            .as_str(),
        );
    }
}

#[test]
fn boolean_attr_test() {
    test_transform(
        JsxString::default(),
        r#"const a = <input type="checkbox" checked />;"#,
        Unit {
            stmts: vec![Const {
                binding: "a",
                init: self_closing(
                    "input",
                    vec![string_attr("type", "checkbox"), boolean_attr("checked")],
                ),
            }],
            exprs: vec![],
        },
        r#"const $$_tpl_1 = [
  '<input type="checkbox" checked />'
];
const a = renderFunction($$_tpl_1, null);"#,
    );
}

#[test]
fn mixed_static_dynamic_props_test() {
    test_transform(
        JsxString::default(),
        r#"const a = <div foo="1" {...props} bar="2">foo</div>;"#,
        Unit {
            stmts: vec![Const {
                binding: "a",
                init: element(
                    "div",
                    vec![string_attr("foo", "1"), Attr::Spread(ExprId(0)), string_attr("bar", "2")],
                    vec![text("foo")],
                ),
            }],
            exprs: vec!["props"],
        },
        r#"const $$_tpl_1 = [
  '<div foo="1" ',
  ' bar="2">foo</div>'
];
const a = renderFunction($$_tpl_1, {
  ...props
});"#,
    );
}

#[test]
fn empty_jsx_child_test() {
    test_transform(
        JsxString::default(),
        r#"const a = <p>{}</p>;"#,
        Unit {
            stmts: vec![Const { binding: "a", init: element("p", vec![], vec![Child::EmptyExpr]) }],
            exprs: vec![],
        },
        r#"const $$_tpl_1 = [
  "<p></p>"
];
const a = renderFunction($$_tpl_1, null);"#,
    );
}

#[test]
fn empty_fragment_test() {
    test_transform(
        JsxString::default(),
        r#"const a = <></>;"#,
        Unit {
            stmts: vec![Const {
                binding: "a",
                init: Expr::Fragment(Fragment { span: Span { lo: 10, hi: 15 }, children: vec![] }),
            }],
            exprs: vec![],
        },
        r#"const a = null;"#,
    );
}

#[test]
fn prop_spread_without_children_test() {
    test_transform(
        JsxString::default(),
        r#"const a = <div {...props} />;"#,
        Unit {
            stmts: vec![Const {
                binding: "a",
                init: self_closing("div", vec![Attr::Spread(ExprId(0))]),
            }],
            exprs: vec!["props"],
        },
        r#"const $$_tpl_1 = [
  "<div ",
  "></div>"
];
const a = renderFunction($$_tpl_1, {
  ...props
});"#,
    );
}

#[test]
fn prop_spread_with_children_test() {
    test_transform(
        JsxString::default(),
        r#"const a = <div {...props}>hello</div>;"#,
        Unit {
            stmts: vec![Const {
                binding: "a",
                init: element("div", vec![Attr::Spread(ExprId(0))], vec![text("hello")]),
            }],
            exprs: vec!["props"],
        },
        r#"const $$_tpl_1 = [
  "<div ",
  ">hello</div>"
];
const a = renderFunction($$_tpl_1, {
  ...props
});"#,
    );
}
