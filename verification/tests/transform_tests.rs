//! Tests for the markup transformer's side tables.

use blve_compiler::markup::{Element, Node, NodeContent};
use blve_compiler::transform::{check_html_elms, TransformState};

fn element(uuid: &str, tag: &str, attrs: Vec<(&str, Option<&str>)>, children: Vec<Node>) -> Node {
    Node {
        uuid: uuid.to_string(),
        content: NodeContent::Element(Element {
            name: tag.to_string(),
            attributes: attrs
                .into_iter()
                .map(|(k, v)| (k.to_string(), v.map(|s| s.to_string())))
                .collect(),
            children,
        }),
    }
}

#[test]
fn captured_reference_ids_are_pairwise_distinct() {
    // Two bindings on the same element, one binding on a sibling with an
    // author-supplied id, and a second request for that same id: every
    // entry in the captured-reference table keeps a distinct DOM id.
    let first = element(
        "n1",
        "button",
        vec![("@click", Some("go")), (":class", Some("x ? 'a' : 'b'"))],
        vec![],
    );
    let second = element(
        "n2",
        "button",
        vec![("id", Some("mine")), ("@click", Some("go")), ("@focus", Some("go"))],
        vec![],
    );
    let root = element("d1", "div", vec![], vec![first, second]);
    let vars = vec!["x".to_string()];
    let empty_ctx: Vec<String> = Vec::new();
    let loc: Vec<usize> = vec![0];
    let (_node, st, _manips) =
        check_html_elms(&vars, root, TransformState::new(), None, &empty_ctx, &loc, 1)
            .map_err(|e| e.message())
            .unwrap();
    let ids: Vec<String> = st.needed_ids.iter().map(|n| n.id_name.clone()).collect();
    for i in 0..ids.len() {
        for j in 0..ids.len() {
            if i != j {
                assert_ne!(ids[i], ids[j]);
            }
        }
    }
    // The author-supplied id is kept and reused, not replaced.
    assert!(ids.contains(&"mine".to_string()));
    let mine: Vec<_> = st.needed_ids.iter().filter(|n| n.id_name == "mine").collect();
    assert_eq!(mine.len(), 1);
    assert!(!mine[0].to_delete);
    // The synthesized id is flagged for removal after capture.
    let synth: Vec<_> = st.needed_ids.iter().filter(|n| n.node_id == "n1").collect();
    assert_eq!(synth.len(), 1);
    assert!(synth[0].to_delete);
}
