//! Tests for the interpolation rewriter and the word utilities.

use blve_compiler::rewrite::{append_v_to_vars, escape_html, replace_text_with_reactive_value};
use blve_compiler::strutil::{
    create_indent, join_strings, split_lines, trim_str, u64_to_string, word_exists_in_text,
    word_is_one_word,
};

#[test]
fn exploration() {
    let code = "escapeHtml(count2.v+count.v)";
    let mut code = code.to_string();
    replace_text_with_reactive_value(
        &mut code,
        &vec!["count".to_string(), "count2".to_string()],
    );
    assert_eq!(code, "escapeHtml(count2.v+count.v)");
}

#[test]
fn exploration2() {
    let code = "escapeHtml( count2.v + count.v )";
    let mut code = code.to_string();
    replace_text_with_reactive_value(
        &mut code,
        &vec!["count".to_string(), "count2".to_string()],
    );
    assert_eq!(code, "escapeHtml( count2.v + count.v )");
}

#[test]
fn exploration3() {
    let code = "${interval==null?'start':'clear'}";
    let mut code = code.to_string();
    replace_text_with_reactive_value(&mut code, &vec!["interval".to_string()]);
    assert_eq!(code, "${escapeHtml(interval.v == null ? 'start' : 'clear')}");
}

#[test]
fn interpolation_reports_dependent_variables() {
    let mut code = "${count} and ${other + count}".to_string();
    let (deps, n) =
        replace_text_with_reactive_value(&mut code, &vec!["count".to_string(), "other".to_string()]);
    assert_eq!(code, "${escapeHtml(count.v)} and ${escapeHtml(other.v + count.v)}");
    assert_eq!(n, 2);
    let names: Vec<&str> = deps.iter().map(|s| s.as_str()).collect();
    assert_eq!(names, vec!["count", "count", "other"]);
}

#[test]
fn member_access_is_not_a_bare_reference() {
    let (text, used) = append_v_to_vars("obj.count + count", &vec!["count".to_string()]);
    assert_eq!(text, "obj.count + count.v");
    assert_eq!(used.len(), 1);
    assert_eq!(used[0], "count");
}

#[test]
fn unterminated_interpolation_is_left_alone() {
    let mut code = "before ${count".to_string();
    let (deps, _) = replace_text_with_reactive_value(&mut code, &vec!["count".to_string()]);
    assert_eq!(code, "before ${count");
    assert!(deps.is_empty());
}

#[test]
fn escape_html_wraps_expression() {
    assert_eq!(escape_html("a + b"), "escapeHtml(a + b)");
}

#[test]
fn word_predicates() {
    assert!(word_is_one_word("handleClick"));
    assert!(word_is_one_word("handler_2$"));
    assert!(!word_is_one_word("count + 1"));
    assert!(word_exists_in_text("count", "count+1"));
    assert!(word_exists_in_text("count", "a, count , b"));
    assert!(!word_exists_in_text("count", "counter+1"));
}

#[test]
fn string_helpers() {
    assert_eq!(u64_to_string(0), "0");
    assert_eq!(u64_to_string(120), "120");
    assert_eq!(trim_str("  a b \n"), "a b");
    assert_eq!(join_strings(&vec!["a".to_string(), "b".to_string()], ", "), "a, b");
    assert_eq!(split_lines("a\nb\n"), vec!["a".to_string(), "b".to_string()]);
    assert_eq!(create_indent("x;\n\ny;"), "    x;\n\n    y;");
}
