//! End-to-end scenarios through the public compiler entry point.

use blve_compiler::markup::{Element, Node, NodeContent};
use blve_compiler::generate::TemplateUnit;
use blve_compiler::output::compile;
use blve_compiler::script::ScriptValue;

fn obj(entries: Vec<(&str, ScriptValue)>) -> ScriptValue {
    ScriptValue::Obj(entries.into_iter().map(|(k, v)| (k.to_string(), v)).collect())
}

fn declaration(name: &str, start: u64, end: u64) -> ScriptValue {
    obj(vec![
        ("id", obj(vec![("value", ScriptValue::Str(name.to_string()))])),
        (
            "init",
            obj(vec![(
                "span",
                obj(vec![("start", ScriptValue::Num(start)), ("end", ScriptValue::Num(end))]),
            )]),
        ),
    ])
}

fn script_ast(decls: Vec<ScriptValue>) -> ScriptValue {
    let body: Vec<ScriptValue> = decls
        .into_iter()
        .map(|d| {
            obj(vec![
                ("type", ScriptValue::Str("VariableDeclaration".to_string())),
                ("declarations", ScriptValue::Arr(vec![d])),
            ])
        })
        .collect();
    obj(vec![("body", ScriptValue::Arr(body))])
}

fn element(uuid: &str, tag: &str, attrs: Vec<(&str, Option<&str>)>, children: Vec<Node>) -> Node {
    Node {
        uuid: uuid.to_string(),
        content: NodeContent::Element(Element {
            name: tag.to_string(),
            attributes: attrs
                .into_iter()
                .map(|(k, v)| (k.to_string(), v.map(|s| s.to_string())))
                .collect(),
            children,
        }),
    }
}

fn text(uuid: &str, t: &str) -> Node {
    Node { uuid: uuid.to_string(), content: NodeContent::TextNode(t.to_string()) }
}

fn unit(dom: Node, ast: ScriptValue, script: &str) -> TemplateUnit {
    TemplateUnit {
        dom,
        script_ast: ast,
        script_text: script.to_string(),
        css: Some(".a { color: red; }".to_string()),
    }
}

/// One variable `count`, one `${count}` text as the sole child of a `<p>`.
fn counter_unit() -> TemplateUnit {
    let dom = element("p1", "p", vec![], vec![text("t1", "${count}")]);
    let ast = script_ast(vec![declaration("count", 13, 14)]);
    unit(dom, ast, "let count = 0;")
}

#[test]
fn sole_child_interpolation_patch_is_gated_by_mask_one() {
    let out = compile(&counter_unit(), None, None, None).unwrap();
    let js = out.js();
    assert!(js.contains("let count = reactiveValue(0, 1, refs);"));
    assert!(js.contains("<p id=\"blv0\">${escapeHtml(count.v)}</p>"));
    assert!(js.contains("const [p1Ref] = getElmRefs([\"blv0\"], 1);"));
    assert!(js.contains("refs[2] & 1 && replaceInnerText(`${escapeHtml(count.v)}`, p1Ref);"));
    assert_eq!(out.css(), Some(".a { color: red; }".to_string()));
}

#[test]
fn compiling_twice_is_byte_identical() {
    let a = compile(&counter_unit(), None, None, None).unwrap();
    let b = compile(&counter_unit(), None, None, None).unwrap();
    assert_eq!(a.js(), b.js());
    assert_eq!(a.css(), b.css());
}

#[test]
fn no_export_and_runtime_path_options() {
    let a = compile(&counter_unit(), Some(true), None, Some("my/runtime".to_string())).unwrap();
    assert!(a.js().contains("const App = function(elm)"));
    assert!(a.js().contains("from 'my/runtime'"));
    let b = compile(&counter_unit(), None, None, None).unwrap();
    assert!(b.js().contains("export default function(elm)"));
    assert!(b.js().contains("from 'blve/dist/runtime'"));
}

#[test]
fn reactive_attribute_rewrites_and_records_one_relation() {
    let dom = element("d1", "div", vec![(":class", Some("count > 0 ? 'a' : 'b'"))], vec![]);
    let ast = script_ast(vec![declaration("count", 13, 14)]);
    let out = compile(&unit(dom, ast, "let count = 0;"), None, None, None).unwrap();
    let js = out.js();
    assert!(js.contains("class=\"${count.v > 0 ? 'a' : 'b'}\""));
    assert!(!js.contains(":class"));
    assert!(js.contains("refs[2] & 1 && replaceAttr(\"class\", count.v > 0 ? 'a' : 'b', d1Ref);"));
}

#[test]
fn conditional_only_child_appends_without_anchor() {
    let span = element("s1", "span", vec![(":if", Some("show"))], vec![text("t1", "Hi")]);
    let dom = element("d1", "div", vec![], vec![span]);
    let ast = script_ast(vec![declaration("show", 12, 16)]);
    let out = compile(&unit(dom, ast, "let show = true;"), None, None, None).unwrap();
    let js = out.js();
    assert!(js.contains("const renders1Elm = () => {"));
    assert!(js.contains("d1Ref.insertBefore(s1Ref, null);"));
    assert!(!js.contains("insertEmpty"));
    assert!(js.contains("show.v && renders1Elm()"));
    assert!(js.contains("refs[3] |= 1, refs[4] |= 1;"));
    assert!(js.contains("refs[2] & 1 && ( show.v ? renders1Elm() : (s1Ref.remove(), s1Ref = null, refs[3] ^= 1) );"));
}

#[test]
fn distant_conditional_gets_synthetic_anchor() {
    let a = element("s1", "span", vec![(":if", Some("show"))], vec![]);
    let dom = element(
        "d1",
        "div",
        vec![],
        vec![a, text("t1", "between"), element("s2", "span", vec![], vec![])],
    );
    let ast = script_ast(vec![declaration("show", 12, 16)]);
    let out = compile(&unit(dom, ast, "let show = true;"), None, None, None).unwrap();
    let js = out.js();
    assert!(js.contains("const s1Anchor = insertEmpty(d1Ref,"));
    assert!(js.contains("d1Ref.insertBefore(s1Ref, s1Anchor);"));
}

#[test]
fn sibling_conditionals_invoke_in_source_order() {
    let a = element("sa", "span", vec![(":if", Some("a"))], vec![]);
    let b = element("sb", "span", vec![(":if", Some("b"))], vec![]);
    let dom = element("d1", "div", vec![], vec![a, b]);
    let ast = script_ast(vec![declaration("a", 9, 10), declaration("b", 19, 20)]);
    let out = compile(&unit(dom, ast, "let a = 0;let b = 0;"), None, None, None).unwrap();
    let js = out.js();
    let first = js.find("a.v && rendersaElm()").unwrap();
    let second = js.find("b.v && rendersbElm()").unwrap();
    assert!(first < second);
    assert!(js.contains("refs[3] ^= 1"));
    assert!(js.contains("refs[3] ^= 2"));
}

#[test]
fn two_way_binding_writes_event_payload_back() {
    let input = element("i1", "input", vec![("::value", Some("name"))], vec![]);
    let dom = element("d1", "div", vec![], vec![input]);
    let ast = script_ast(vec![declaration("name", 12, 15)]);
    let out = compile(&unit(dom, ast, "let name = 'x';"), None, None, None).unwrap();
    let js = out.js();
    assert!(js.contains("addEvListener(i1Ref, \"input\", (e)=>name.v = event.target.value);"));
    assert!(js.contains("replaceAttr(\"value\", name.v, i1Ref);"));
}

#[test]
fn nested_content_update_tests_first_paint_bit() {
    let p = element("p1", "p", vec![(":if", Some("show"))], vec![text("t1", "${count}")]);
    let dom = element("d1", "div", vec![], vec![p]);
    let ast = script_ast(vec![declaration("show", 12, 16), declaration("count", 29, 30)]);
    let out = compile(&unit(dom, ast, "let show = true;let count = 0;"), None, None, None)
        .unwrap();
    let js = out.js();
    assert!(js.contains("(!((refs[3] & 1) ^ 1)) && (refs[2] & 2 && ((refs[4] & 1) ^ 1) ) && replaceInnerText"));
}

#[test]
fn nested_conditional_is_only_invoked_from_its_parent() {
    let inner = element("si", "span", vec![(":if", Some("b"))], vec![]);
    let outer = element("so", "section", vec![(":if", Some("a"))], vec![inner]);
    let dom = element("d1", "div", vec![], vec![outer]);
    let ast = script_ast(vec![declaration("a", 9, 10), declaration("b", 19, 20)]);
    let out = compile(&unit(dom, ast, "let a = 0;let b = 0;"), None, None, None).unwrap();
    let js = out.js();
    // The outer block is top-level: its routine is followed by one
    // standalone invocation.
    assert!(js.contains("a.v && rendersoElm()"));
    // The inner block's invocation appears exactly once, inside the outer
    // routine's child cascade, never standalone.
    assert_eq!(js.matches("b.v && rendersiElm()").count(), 1);
    let outer_def = js.find("const rendersoElm").unwrap();
    let outer_def_end = js[outer_def..].find("\n}").unwrap() + outer_def;
    let inner_call = js.find("b.v && rendersiElm()").unwrap();
    assert!(outer_def < inner_call && inner_call < outer_def_end);
    // The inner block's toggle is gated on the outer block's active bit.
    assert!(js.contains("(!((refs[3] & 1) ^ 1)) && refs[2] & 2 && ( b.v ? rendersiElm()"));
}

#[test]
fn event_binding_registers_listener() {
    let button = element("b1", "button", vec![("@click", Some("increment"))], vec![]);
    let dom = element("d1", "div", vec![], vec![button]);
    let ast = script_ast(vec![]);
    let out = compile(&unit(dom, ast, ""), None, None, None).unwrap();
    let js = out.js();
    assert!(js.contains("addEvListener(b1Ref, \"click\", increment);"));
}

#[test]
fn inner_html_binding_is_rejected() {
    let dom = element("d1", "div", vec![(":innerHtml", Some("x"))], vec![]);
    let err = compile(&unit(dom, script_ast(vec![]), ""), None, None, None).unwrap_err();
    assert_eq!(err, ":innerHtml is not supported");
}

#[test]
fn conditional_without_value_is_rejected() {
    let span = element("s1", "span", vec![(":if", None)], vec![]);
    let dom = element("d1", "div", vec![], vec![span]);
    let err = compile(&unit(dom, script_ast(vec![]), ""), None, None, None).unwrap_err();
    assert_eq!(err, "value of :if attribute is missing");
}

#[test]
fn reactive_attribute_without_value_is_rejected() {
    let dom = element("d1", "div", vec![(":class", None)], vec![]);
    let err = compile(&unit(dom, script_ast(vec![]), ""), None, None, None).unwrap_err();
    assert_eq!(err, "value of attribute :class is null");
}

#[test]
fn two_way_binding_needs_simple_target() {
    let input = element("i1", "input", vec![("::value", Some("a + b"))], vec![]);
    let dom = element("d1", "div", vec![], vec![input]);
    let err = compile(&unit(dom, script_ast(vec![]), ""), None, None, None).unwrap_err();
    assert_eq!(err, "two-way binding target is not a variable name: a + b");
}

#[test]
fn more_than_32_variables_overflow_the_register() {
    let mut decls = Vec::new();
    let mut script = String::new();
    for i in 0..33u64 {
        let name = format!("v{}", i);
        let start = script.len() as u64 + name.len() as u64 + 8;
        script.push_str(&format!("let {} = 0;", name));
        decls.push(declaration(&name, start, start + 1));
    }
    let dom = element("d1", "div", vec![], vec![]);
    let err = compile(&unit(dom, script_ast(decls), &script), None, None, None).unwrap_err();
    assert_eq!(err, "more than 32 reactive variables or conditional blocks");
}

#[test]
fn import_list_names_only_used_primitives() {
    let out = compile(&counter_unit(), None, None, None).unwrap();
    let js = out.js();
    let header = js.lines().next().unwrap().to_string();
    assert!(header.contains("getElmRefs"));
    assert!(header.contains("reactiveValue"));
    assert!(header.contains("replaceInnerText"));
    assert!(!header.contains("insertEmpty"));
    assert!(!header.contains("addEvListener"));
}
