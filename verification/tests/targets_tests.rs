//! Tests for the side-table types: sorting, containment masks, and
//! event-target classification.

use blve_compiler::info::{sort_if_blocks, EventTarget, IfBlockInfo};
use blve_compiler::markup::{Element, Node, NodeContent};
use blve_compiler::targets::{
    sort_elm_and_reactive_info, ElmAndReactiveInfo, ElmAndVariableContentRelation,
};

fn empty_span(uuid: &str) -> Node {
    Node {
        uuid: uuid.to_string(),
        content: NodeContent::Element(Element {
            name: "span".to_string(),
            attributes: vec![],
            children: vec![],
        }),
    }
}

fn block(id: &str, ctx: Vec<&str>, loc: Vec<usize>) -> IfBlockInfo {
    IfBlockInfo {
        if_block_id: id.to_string(),
        parent_id: "p".to_string(),
        target_if_blk_id: id.to_string(),
        distance_to_next_elm: 1,
        target_anchor_id: None,
        elm: empty_span(id),
        condition: "c".to_string(),
        condition_dep_vars: vec![],
        ctx: ctx.into_iter().map(|s| s.to_string()).collect(),
        element_location: loc,
    }
}

fn content_relation(id: &str, ctx: Vec<&str>, loc: Vec<usize>) -> ElmAndVariableContentRelation {
    ElmAndVariableContentRelation {
        elm_id: id.to_string(),
        variable_names: vec![],
        content_of_element: String::new(),
        ctx: ctx.into_iter().map(|s| s.to_string()).collect(),
        elm_loc: loc,
    }
}

#[test]
fn if_blocks_sort_by_tree_position() {
    let mut v = vec![
        block("late", vec![], vec![0, 2]),
        block("early", vec![], vec![0, 0, 1]),
        block("mid", vec![], vec![0, 1]),
    ];
    sort_if_blocks(&mut v);
    let ids: Vec<&str> = v.iter().map(|b| b.if_block_id.as_str()).collect();
    assert_eq!(ids, vec!["early", "mid", "late"]);
}

#[test]
fn relations_sort_by_tree_position() {
    let mut v = vec![
        ElmAndReactiveInfo::ElmAndVariableRelation(content_relation("b", vec![], vec![0, 1])),
        ElmAndReactiveInfo::ElmAndVariableRelation(content_relation("a", vec![], vec![0, 0])),
    ];
    sort_elm_and_reactive_info(&mut v);
    let first = match &v[0] {
        ElmAndReactiveInfo::ElmAndVariableRelation(r) => r.elm_id.clone(),
        _ => unreachable!(),
    };
    assert_eq!(first, "a");
}

#[test]
fn containment_mask_collects_ancestor_bits() {
    let blocks = vec![
        block("outer", vec![], vec![0, 0]),
        block("inner", vec!["outer"], vec![0, 0, 0]),
    ];
    let nested = content_relation("x", vec!["outer", "inner"], vec![0, 0, 0, 0]);
    assert_eq!(nested.generate_ctx_num(&blocks), 0b11);
    let under_outer = content_relation("y", vec!["outer"], vec![0, 0, 1]);
    assert_eq!(under_outer.generate_ctx_num(&blocks), 0b01);
    let top = content_relation("z", vec![], vec![0, 1]);
    assert_eq!(top.generate_ctx_num(&blocks), 0);
}

#[test]
fn event_targets_classify_by_shape() {
    let vars = vec!["count".to_string()];
    let named = EventTarget::new("handleClick".to_string(), &vars);
    assert_eq!(named.to_string(), "handleClick");
    let call = EventTarget::new("reset()".to_string(), &vars);
    assert_eq!(call.to_string(), "()=>reset()");
    let stmt = EventTarget::new("count = count + 1".to_string(), &vars);
    assert_eq!(stmt.to_string(), "()=>count.v = count.v + 1");
}
