//! Tests for the bit-packing codec and the script analyzer.

use blve_compiler::codec::{gen_binary_map_from_bool, get_combined_binary_number};
use blve_compiler::info::AddStringToPosition;
use blve_compiler::script::{add_strings_to_script, analyze_js, search_json, ScriptValue};
use blve_compiler::strutil::contains_string;

fn obj(entries: Vec<(&str, ScriptValue)>) -> ScriptValue {
    ScriptValue::Obj(entries.into_iter().map(|(k, v)| (k.to_string(), v)).collect())
}

#[test]
fn combining_masks_is_bitwise_or() {
    assert_eq!(get_combined_binary_number(&vec![0b0001, 0b0010, 0b0100]), 0b0111);
    assert_eq!(get_combined_binary_number(&vec![]), 0);
    assert_eq!(get_combined_binary_number(&vec![5, 5]), 5);
}

#[test]
fn combining_is_associative_and_flattens() {
    let (a, b, c) = (0b0011u32, 0b0110u32, 0b1100u32);
    let ab = get_combined_binary_number(&vec![a, b]);
    let bc = get_combined_binary_number(&vec![b, c]);
    let left = get_combined_binary_number(&vec![ab, c]);
    let right = get_combined_binary_number(&vec![a, bc]);
    let flat = get_combined_binary_number(&vec![a, b, c]);
    assert_eq!(left, right);
    assert_eq!(left, flat);
}

#[test]
fn assigned_masks_are_distinct_and_cover_low_bits() {
    let masks: Vec<u32> = (0..5u32).map(|k| 1u32 << k).collect();
    for i in 0..masks.len() {
        for j in 0..masks.len() {
            if i != j {
                assert_ne!(masks[i], masks[j]);
            }
        }
    }
    assert_eq!(get_combined_binary_number(&masks), (1u32 << 5) - 1);
}

#[test]
fn delete_flags_pack_first_flag_most_significant() {
    assert_eq!(gen_binary_map_from_bool(&vec![true, false, true]), 0b101);
    assert_eq!(gen_binary_map_from_bool(&vec![false, true]), 0b01);
    assert_eq!(gen_binary_map_from_bool(&vec![]), 0);
}

#[test]
fn insertions_apply_left_to_right() {
    let script = "let a = 1;".to_string();
    let inserts = vec![
        AddStringToPosition { position: 8, string: "reactiveValue(".to_string() },
        AddStringToPosition { position: 9, string: ", 1, refs)".to_string() },
    ];
    assert_eq!(add_strings_to_script(inserts, &script), "let a = reactiveValue(1, 1, refs);");
}

#[test]
fn identifier_references_get_value_accessors() {
    let ident = obj(vec![
        ("type", ScriptValue::Str("Identifier".to_string())),
        ("value", ScriptValue::Str("count".to_string())),
        ("span", obj(vec![("end", ScriptValue::Num(6))])),
    ]);
    let wrapper = obj(vec![("type", ScriptValue::Str("CallExpression".to_string())), (
        "callee",
        ident,
    )]);
    let r = search_json(&wrapper, &vec!["count".to_string()], None);
    assert_eq!(r.len(), 1);
    assert_eq!(r[0].position, 5);
    assert_eq!(r[0].string, ".v");
}

#[test]
fn declarator_identifiers_are_not_suffixed() {
    let ident = obj(vec![
        ("type", ScriptValue::Str("Identifier".to_string())),
        ("value", ScriptValue::Str("count".to_string())),
        ("span", obj(vec![("end", ScriptValue::Num(6))])),
    ]);
    let declarator = obj(vec![
        ("type", ScriptValue::Str("VariableDeclarator".to_string())),
        ("id", ident),
    ]);
    let r = search_json(&declarator, &vec!["count".to_string()], None);
    assert!(r.is_empty());
}

#[test]
fn analyzer_assigns_ascending_powers_of_two() {
    let decl = |name: &str, start: u64, end: u64| {
        obj(vec![
            ("id", obj(vec![("value", ScriptValue::Str(name.to_string()))])),
            (
                "init",
                obj(vec![(
                    "span",
                    obj(vec![("start", ScriptValue::Num(start)), ("end", ScriptValue::Num(end))]),
                )]),
            ),
        ])
    };
    let body = vec![
        obj(vec![
            ("type", ScriptValue::Str("VariableDeclaration".to_string())),
            ("declarations", ScriptValue::Arr(vec![decl("a", 9, 10)])),
        ]),
        obj(vec![
            ("type", ScriptValue::Str("VariableDeclaration".to_string())),
            ("declarations", ScriptValue::Arr(vec![decl("b", 19, 20)])),
        ]),
    ];
    let ast = obj(vec![("body", ScriptValue::Arr(body))]);
    let script = "let a = 0;let b = 1;".to_string();
    let (vars, names, out) = analyze_js(&ast, &script).unwrap();
    assert_eq!(vars.len(), 2);
    assert_eq!(vars[0].name, "a");
    assert_eq!(vars[0].assignment, 1);
    assert_eq!(vars[1].name, "b");
    assert_eq!(vars[1].assignment, 2);
    assert!(contains_string(&names, "a") && contains_string(&names, "b"));
    assert_eq!(out, "let a = reactiveValue(0, 1, refs);let b = reactiveValue(1, 2, refs);");
}
