//! The code generators: the reference getter, event-listener registrations,
//! anchor-creation statements, per-block creation routines, the single patch
//! function gated by bit-mask comparisons, and the module wrapper. Every
//! emitted string is pinned to a specification, so compiling the same input
//! twice provably yields byte-identical output.

use crate::codec::{gen_binary_map_from_bool, spec_bool_map, spec_containment};
use crate::info::{
    ActionAndTarget, ActionAndTargetV, IfBlockInfo, IfBlockInfoV, ManualRendererForTextNode,
    ManualRendererForTextNodeV, NeededIdName, NeededIdNameV, VariableNameAndAssignedNumber,
    VariableNameAndAssignedNumberV, spec_event_target_str,
};
use crate::sorting::{lemma_insert_sorted_at, loc_le, spec_insert_sorted, spec_insertion_sort, spec_loc_le};
use crate::strutil::{
    clone_string_vec, clone_usize_vec, contains_string, create_indent, join_strings,
    spec_create_indent, spec_dec, spec_join, spec_trim, str_eq, trim_str, u32_to_string,
    vec_string_eq,
};
use crate::info::{sort_if_blocks, spec_if_block_le, CompileError, CompileErrorV};
use crate::markup::{
    lemma_nodes_view, node_view, nodes_view, opt_str_view, spec_children_str, spec_node_str, Node,
    NodeContent, NodeContentV, NodeV,
};
use crate::script::{analyze_js, spec_analyze_js, sval_view, ScriptValue, ScriptValueV};
use crate::targets::{sort_elm_and_reactive_info, spec_reactive_info_le};
use crate::transform::{check_html_elms, spec_check_node, TransformState, TransformStateV};
use crate::targets::{
    spec_block_ids, ElmAndReactiveAttributeRelationV, ElmAndReactiveInfo, ElmAndReactiveInfoV,
    ElmAndVariableContentRelationV, ReactiveAttrV, TextAndVariableContentRelationV,
};
use vstd::prelude::*;
use vstd::string::StrSliceExecFns;
use vstd::string::StringExecFns;

verus! {

broadcast use {vstd::std_specs::vec::group_vec_axioms, vstd::seq::group_seq_axioms};

/// The dependency mask of a binding: the OR of the masks of the declared
/// variables whose names the binding reads.
pub open spec fn spec_dep_mask(
    dep_vars: Seq<Seq<char>>,
    vars: Seq<VariableNameAndAssignedNumberV>,
) -> u32
    decreases vars.len(),
{
    if vars.len() == 0 {
        0u32
    } else {
        spec_dep_mask(dep_vars, vars.drop_last()) | (if dep_vars.contains(vars.last().name) {
            vars.last().assignment
        } else {
            0u32
        })
    }
}

/// Combines the masks of the variables a binding depends on.
pub fn dep_mask(dep_vars: &Vec<String>, vars: &Vec<VariableNameAndAssignedNumber>) -> (r: u32)
    ensures
        r == spec_dep_mask(dep_vars.deep_view(), vars.deep_view()),
{
    let ghost dv = dep_vars.deep_view();
    let ghost vv = vars.deep_view();
    let mut mask: u32 = 0;
    let mut i: usize = 0;
    proof {
        assert(vv.take(0) =~= Seq::<VariableNameAndAssignedNumberV>::empty());
    }
    while i < vars.len()
        invariant
            0 <= i <= vars@.len(),
            dv == dep_vars.deep_view(),
            vv == vars.deep_view(),
            vv.len() == vars@.len(),
            mask == spec_dep_mask(dv, vv.take(i as int)),
        decreases vars@.len() - i,
    {
        let bit: u32 = if contains_string(dep_vars, vars[i].name.as_str()) {
            vars[i].assignment
        } else {
            0u32
        };
        mask = mask | bit;
        i = i + 1;
        proof {
            assert(vv.take(i as int).drop_last() =~= vv.take(i as int - 1));
            assert(vv.take(i as int).last() == vv[i as int - 1]);
            assert(vv[i as int - 1] == vars@[i as int - 1]@);
        }
    }
    proof {
        assert(vv.take(vv.len() as int) =~= vv);
    }
    mask
}

/// The statement registering one event listener.
pub open spec fn spec_event_listener_str(a: ActionAndTargetV) -> Seq<char> {
    "addEvListener("@ + a.target + "Ref, \""@ + a.action_name + "\", "@ + spec_event_target_str(
        a.action,
    ) + ");"@
}

/// The event-listener registrations, one statement per binding, in order.
pub open spec fn spec_event_listeners(actions: Seq<ActionAndTargetV>) -> Seq<Seq<char>> {
    Seq::new(actions.len(), |i: int| spec_event_listener_str(actions[i]))
}

/// Emits one listener registration per recorded event binding.
pub fn create_event_listener(actions_and_targets: &Vec<ActionAndTarget>) -> (r: Vec<String>)
    ensures
        r.deep_view() == spec_event_listeners(actions_and_targets.deep_view()),
{
    let ghost av = actions_and_targets.deep_view();
    let mut result: Vec<String> = Vec::new();
    let mut i: usize = 0;
    proof {
        assert(result.deep_view() =~= spec_event_listeners(av).take(0));
    }
    while i < actions_and_targets.len()
        invariant
            0 <= i <= actions_and_targets@.len(),
            av == actions_and_targets.deep_view(),
            av.len() == actions_and_targets@.len(),
            result.deep_view() == spec_event_listeners(av).take(i as int),
        decreases actions_and_targets@.len() - i,
    {
        let a = &actions_and_targets[i];
        let mut s = String::from_str("addEvListener(");
        s.append(a.target.as_str());
        s.append("Ref, \"");
        s.append(a.action_name.as_str());
        s.append("\", ");
        let action_str = a.action.to_string();
        s.append(action_str.as_str());
        s.append(");");
        let ghost sv = s@;
        let ghost prev = result.deep_view();
        result.push(s);
        i = i + 1;
        proof {
            assert(result.deep_view() =~= prev.push(sv));
            assert(av[i as int - 1] == actions_and_targets@[i as int - 1]@);
            assert(sv =~= spec_event_listener_str(av[i as int - 1]));
            assert(result.deep_view() =~= spec_event_listeners(av).take(i as int));
        }
    }
    proof {
        assert(spec_event_listeners(av).take(av.len() as int) =~= spec_event_listeners(av));
    }
    result
}

/// The captured-reference requests that must be resolved at the top level:
/// those outside every conditional block.
pub open spec fn spec_top_level_ids(needed: Seq<NeededIdNameV>) -> Seq<NeededIdNameV>
    decreases needed.len(),
{
    if needed.len() == 0 {
        Seq::empty()
    } else {
        spec_top_level_ids(needed.drop_last()) + (if needed.last().ctx.len() == 0 {
            seq![needed.last()]
        } else {
            Seq::<NeededIdNameV>::empty()
        })
    }
}

/// A filtered request list is never longer than its source.
pub proof fn lemma_top_level_ids_len(needed: Seq<NeededIdNameV>)
    ensures
        spec_top_level_ids(needed).len() <= needed.len(),
    decreases needed.len(),
{
    if needed.len() > 0 {
        lemma_top_level_ids_len(needed.drop_last());
    }
}

/// The reference variables of a request list: one `{node id}Ref` name each.
pub open spec fn spec_ref_names(ids: Seq<NeededIdNameV>) -> Seq<Seq<char>> {
    Seq::new(ids.len(), |i: int| ids[i].node_id + "Ref"@)
}

/// The quoted DOM ids of a request list.
pub open spec fn spec_quoted_ids(ids: Seq<NeededIdNameV>) -> Seq<Seq<char>> {
    Seq::new(ids.len(), |i: int| "\""@ + ids[i].id_name + "\""@)
}

/// The deletion flags of a request list.
pub open spec fn spec_delete_flags(ids: Seq<NeededIdNameV>) -> Seq<bool> {
    Seq::new(ids.len(), |i: int| ids[i].to_delete)
}

/// The top-level reference getter: destructures the references captured by
/// DOM id, passing the bit-packed deletion flags so synthesized ids are
/// stripped after capture.
pub open spec fn spec_gen_ref_getter(needed: Seq<NeededIdNameV>) -> Seq<char> {
    let top = spec_top_level_ids(needed);
    "const ["@ + spec_join(spec_ref_names(top), ", "@) + "] = getElmRefs(["@ + spec_join(
        spec_quoted_ids(top),
        ", "@,
    ) + "], "@ + spec_dec(spec_bool_map(spec_delete_flags(top)) as nat) + ");"@
}

/// Splits the top-level captured-reference requests into the three pieces
/// the getter needs: reference names, quoted DOM ids, deletion flags.
fn top_level_pieces(needed_ids: &Vec<NeededIdName>) -> (r: (Vec<String>, Vec<String>, Vec<bool>))
    ensures
        r.0.deep_view() == spec_ref_names(spec_top_level_ids(needed_ids.deep_view())),
        r.1.deep_view() == spec_quoted_ids(spec_top_level_ids(needed_ids.deep_view())),
        r.2@ == spec_delete_flags(spec_top_level_ids(needed_ids.deep_view())),
        r.2@.len() <= needed_ids.deep_view().len(),
{
    let ghost nv = needed_ids.deep_view();
    let mut names: Vec<String> = Vec::new();
    let mut ids: Vec<String> = Vec::new();
    let mut flags: Vec<bool> = Vec::new();
    let mut i: usize = 0;
    proof {
        assert(nv.take(0) =~= Seq::<NeededIdNameV>::empty());
        assert(names.deep_view() =~= spec_ref_names(spec_top_level_ids(nv.take(0))));
        assert(ids.deep_view() =~= spec_quoted_ids(spec_top_level_ids(nv.take(0))));
        assert(flags@ =~= spec_delete_flags(spec_top_level_ids(nv.take(0))));
    }
    while i < needed_ids.len()
        invariant
            0 <= i <= needed_ids@.len(),
            nv == needed_ids.deep_view(),
            nv.len() == needed_ids@.len(),
            names.deep_view() == spec_ref_names(spec_top_level_ids(nv.take(i as int))),
            ids.deep_view() == spec_quoted_ids(spec_top_level_ids(nv.take(i as int))),
            flags@ == spec_delete_flags(spec_top_level_ids(nv.take(i as int))),
            flags@.len() == spec_top_level_ids(nv.take(i as int)).len(),
        decreases needed_ids@.len() - i,
    {
        let ghost prev_top = spec_top_level_ids(nv.take(i as int));
        let ghost prev_names = names.deep_view();
        let ghost prev_ids = ids.deep_view();
        let ghost prev_flags = flags@;
        if needed_ids[i].ctx.len() == 0 {
            let mut nm = needed_ids[i].node_id.clone();
            nm.append("Ref");
            let mut qi = String::from_str("\"");
            qi.append(needed_ids[i].id_name.as_str());
            qi.append("\"");
            let ghost nmv = nm@;
            let ghost qiv = qi@;
            names.push(nm);
            ids.push(qi);
            flags.push(needed_ids[i].to_delete);
            proof {
                assert(names.deep_view() =~= prev_names.push(nmv));
                assert(ids.deep_view() =~= prev_ids.push(qiv));
                assert(nv[i as int] == needed_ids@[i as int]@);
                assert(nmv =~= nv[i as int].node_id + "Ref"@);
                assert(qiv =~= "\""@ + nv[i as int].id_name + "\""@);
            }
        }
        i = i + 1;
        proof {
            assert(nv.take(i as int).drop_last() =~= nv.take(i as int - 1));
            assert(nv.take(i as int).last() == nv[i as int - 1]);
            assert(nv[i as int - 1] == needed_ids@[i as int - 1]@);
            let top = spec_top_level_ids(nv.take(i as int));
            if nv[i as int - 1].ctx.len() == 0 {
                assert(top =~= prev_top.push(nv[i as int - 1]));
                assert(names.deep_view() =~= spec_ref_names(top));
                assert(ids.deep_view() =~= spec_quoted_ids(top));
                assert(flags@ =~= spec_delete_flags(top));
            } else {
                assert(top =~= prev_top);
                assert(names.deep_view() =~= spec_ref_names(top));
                assert(ids.deep_view() =~= spec_quoted_ids(top));
                assert(flags@ =~= spec_delete_flags(top));
            }
        }
    }
    proof {
        assert(nv.take(nv.len() as int) =~= nv);
        lemma_top_level_ids_len(nv);
    }
    (names, ids, flags)
}

/// Emits the top-level reference getter for every reference needed outside
/// all conditional blocks.
pub fn gen_ref_getter_from_needed_ids(needed_ids: &Vec<NeededIdName>) -> (r: String)
    requires
        needed_ids@.len() <= 32,
    ensures
        r@ == spec_gen_ref_getter(needed_ids.deep_view()),
{
    let (names, ids, flags) = top_level_pieces(needed_ids);
    let mut s = String::from_str("const [");
    let joined_names = join_strings(&names, ", ");
    s.append(joined_names.as_str());
    s.append("] = getElmRefs([");
    let joined_ids = join_strings(&ids, ", ");
    s.append(joined_ids.as_str());
    s.append("], ");
    proof {
        assert(needed_ids.deep_view().len() == needed_ids@.len());
    }
    let map = gen_binary_map_from_bool(&flags);
    let map_str = u32_to_string(map);
    s.append(map_str.as_str());
    s.append(");");
    proof {
        assert(s@ =~= spec_gen_ref_getter(needed_ids.deep_view()));
    }
    s
}

/// The guard testing that a binding's enclosing blocks are all active:
/// empty for a top-level binding.
pub open spec fn spec_ctx_prefix(ctx: Seq<Seq<char>>, ids: Seq<Seq<char>>) -> Seq<char> {
    if ctx.len() != 0 {
        let n = spec_containment(ctx, ids);
        "(!((refs[3] & "@ + spec_dec(n as nat) + ") ^ "@ + spec_dec(n as nat) + ")) && "@
    } else {
        Seq::empty()
    }
}

/// Emits the active-context guard of a binding.
pub fn ctx_prefix(ctx: &Vec<String>, if_blocks_infos: &Vec<IfBlockInfo>) -> (r: String)
    requires
        if_blocks_infos@.len() <= 32,
    ensures
        r@ == spec_ctx_prefix(ctx.deep_view(), spec_block_ids(if_blocks_infos.deep_view())),
{
    if ctx.len() == 0 {
        let r = String::new();
        proof {
            assert(r@ =~= spec_ctx_prefix(
                ctx.deep_view(),
                spec_block_ids(if_blocks_infos.deep_view()),
            ));
        }
        r
    } else {
        let n = crate::targets::containment_mask(ctx, if_blocks_infos);
        let ns = u32_to_string(n);
        let mut r = String::from_str("(!((refs[3] & ");
        r.append(ns.as_str());
        r.append(") ^ ");
        r.append(ns.as_str());
        r.append(")) && ");
        proof {
            assert(ctx.deep_view().len() > 0);
            assert(r@ =~= spec_ctx_prefix(
                ctx.deep_view(),
                spec_block_ids(if_blocks_infos.deep_view()),
            ));
        }
        r
    }
}

/// The guarded toggle statement of one conditional block: when the block's
/// containers are active and its condition's dependencies changed, either
/// invoke the creation routine or remove the block's root, null its cached
/// reference, and clear the block's active bit.
pub open spec fn spec_if_toggle_stmt(
    blk: IfBlockInfoV,
    i: int,
    ids: Seq<Seq<char>>,
    vars: Seq<VariableNameAndAssignedNumberV>,
) -> Seq<char> {
    spec_ctx_prefix(blk.ctx, ids) + "refs[2] & "@ + spec_dec(
        spec_dep_mask(blk.condition_dep_vars, vars) as nat,
    ) + " && ( "@ + blk.condition + " ? "@ + "render"@ + blk.if_block_id + "Elm()"@ + " : ("@
        + blk.if_block_id + "Ref.remove()"@ + ", "@ + blk.if_block_id + "Ref = null"@ + ", "@
        + "refs[3] ^= "@ + spec_dec((1u32 << (i as u32)) as nat) + ") );"@
}

/// The condition gating one attribute or content update: the dependency
/// test, and for nested bindings the first-paint bit test exactly as the
/// runtime protocol fixes it.
pub open spec fn spec_update_cond(under: bool, dep: u32, ctxnum: u32) -> Seq<char> {
    if under {
        "(refs[2] & "@ + spec_dec(dep as nat) + " && ((refs[4] & "@ + spec_dec(ctxnum as nat)
            + ") ^ "@ + spec_dec(ctxnum as nat) + ") )"@
    } else {
        "refs[2] & "@ + spec_dec(dep as nat)
    }
}

/// The update statement of one reactive attribute.
pub open spec fn spec_attr_stmt(
    ar: ElmAndReactiveAttributeRelationV,
    c: ReactiveAttrV,
    ids: Seq<Seq<char>>,
    vars: Seq<VariableNameAndAssignedNumberV>,
) -> Seq<char> {
    spec_ctx_prefix(ar.ctx, ids) + "refs[2] & "@ + spec_dec(
        spec_dep_mask(c.variable_names, vars) as nat,
    ) + " && replaceAttr(\""@ + c.attribute_key + "\", "@ + c.content_of_attr + ", "@ + ar.elm_id
        + "Ref);"@
}

/// The update statement of one element-content binding.
pub open spec fn spec_content_stmt(
    cr: ElmAndVariableContentRelationV,
    ids: Seq<Seq<char>>,
    vars: Seq<VariableNameAndAssignedNumberV>,
) -> Seq<char> {
    spec_ctx_prefix(cr.ctx, ids) + spec_update_cond(
        cr.ctx.len() != 0,
        spec_dep_mask(cr.variable_names, vars),
        spec_containment(cr.ctx, ids),
    ) + " && replaceInnerText(`"@ + spec_trim(cr.content_of_element) + "`, "@ + cr.elm_id
        + "Ref);"@
}

/// The update statement of one manually rendered text binding.
pub open spec fn spec_text_stmt(
    tr: TextAndVariableContentRelationV,
    ids: Seq<Seq<char>>,
    vars: Seq<VariableNameAndAssignedNumberV>,
) -> Seq<char> {
    spec_ctx_prefix(tr.ctx, ids) + spec_update_cond(
        tr.ctx.len() != 0,
        spec_dep_mask(tr.variable_names, vars),
        spec_containment(tr.ctx, ids),
    ) + " && replaceText(`"@ + spec_trim(tr.content_of_element) + "`, "@ + tr.text_node_id
        + "Text);"@
}

/// The update statements of one relation: one per reactive attribute, or
/// one for a content binding.
pub open spec fn spec_relation_stmts(
    rel: ElmAndReactiveInfoV,
    ids: Seq<Seq<char>>,
    vars: Seq<VariableNameAndAssignedNumberV>,
) -> Seq<Seq<char>> {
    match rel {
        ElmAndReactiveInfoV::ElmAndReactiveAttributeRelation(ar) => Seq::new(
            ar.reactive_attr.len(),
            |j: int| spec_attr_stmt(ar, ar.reactive_attr[j], ids, vars),
        ),
        ElmAndReactiveInfoV::ElmAndVariableRelation(cr) => seq![spec_content_stmt(cr, ids, vars)],
        ElmAndReactiveInfoV::TextAndVariableContentRelation(tr) => seq![
            spec_text_stmt(tr, ids, vars),
        ],
    }
}

/// The update statements of all relations, in sorted order.
pub open spec fn spec_all_rel_stmts(
    rels: Seq<ElmAndReactiveInfoV>,
    ids: Seq<Seq<char>>,
    vars: Seq<VariableNameAndAssignedNumberV>,
) -> Seq<Seq<char>>
    decreases rels.len(),
{
    if rels.len() == 0 {
        Seq::empty()
    } else {
        spec_all_rel_stmts(rels.drop_last(), ids, vars) + spec_relation_stmts(
            rels.last(),
            ids,
            vars,
        )
    }
}

/// The toggle statements of all conditional blocks, in sorted order.
pub open spec fn spec_toggle_stmts(
    blocks: Seq<IfBlockInfoV>,
    vars: Seq<VariableNameAndAssignedNumberV>,
) -> Seq<Seq<char>> {
    Seq::new(
        blocks.len(),
        |i: int| spec_if_toggle_stmt(blocks[i], i, spec_block_ids(blocks), vars),
    )
}

/// The whole patch function: all conditional toggles first, then all
/// attribute and content updates, each statement indented one level, the
/// body handed to the runtime's update-function constructor.
pub open spec fn spec_gen_update_func(
    rels: Seq<ElmAndReactiveInfoV>,
    vars: Seq<VariableNameAndAssignedNumberV>,
    blocks: Seq<IfBlockInfoV>,
) -> Seq<char> {
    let stmts = spec_toggle_stmts(blocks, vars) + spec_all_rel_stmts(
        rels,
        spec_block_ids(blocks),
        vars,
    );
    "refs[0] = genUpdateFunc(() => {\n"@ + spec_join(
        stmts.map(|i: int, l: Seq<char>| spec_create_indent(l)),
        "\n"@,
    ) + "\n});"@
}

/// Emits the update statements of one relation.
#[verifier::rlimit(100)]
fn relation_stmts(
    rel: &ElmAndReactiveInfo,
    variable_name_and_assigned_numbers: &Vec<VariableNameAndAssignedNumber>,
    if_blocks_infos: &Vec<IfBlockInfo>,
) -> (r: Vec<String>)
    requires
        if_blocks_infos@.len() <= 32,
    ensures
        r.deep_view() == spec_relation_stmts(
            rel@,
            spec_block_ids(if_blocks_infos.deep_view()),
            variable_name_and_assigned_numbers.deep_view(),
        ),
{
    let ghost ids = spec_block_ids(if_blocks_infos.deep_view());
    let ghost vars = variable_name_and_assigned_numbers.deep_view();
    let mut out: Vec<String> = Vec::new();
    match rel {
        ElmAndReactiveInfo::ElmAndReactiveAttributeRelation(ar) => {
            let ghost arv = ar@;
            let prefix = ctx_prefix(&ar.ctx, if_blocks_infos);
            let mut j: usize = 0;
            proof {
                assert(out.deep_view() =~= spec_relation_stmts(rel@, ids, vars).take(0));
            }
            while j < ar.reactive_attr.len()
                invariant
                    0 <= j <= ar.reactive_attr@.len(),
                    arv == ar@,
                    arv.reactive_attr.len() == ar.reactive_attr@.len(),
                    ids == spec_block_ids(if_blocks_infos.deep_view()),
                    vars == variable_name_and_assigned_numbers.deep_view(),
                    if_blocks_infos@.len() <= 32,
                    prefix@ == spec_ctx_prefix(arv.ctx, ids),
                    rel@ == ElmAndReactiveInfoV::ElmAndReactiveAttributeRelation(arv),
                    out.deep_view() == spec_relation_stmts(rel@, ids, vars).take(j as int),
                decreases ar.reactive_attr@.len() - j,
            {
                let c = &ar.reactive_attr[j];
                let d = dep_mask(&c.variable_names, variable_name_and_assigned_numbers);
                let ds = u32_to_string(d);
                let mut s = prefix.clone();
                s.append("refs[2] & ");
                s.append(ds.as_str());
                s.append(" && replaceAttr(\"");
                s.append(c.attribute_key.as_str());
                s.append("\", ");
                s.append(c.content_of_attr.as_str());
                s.append(", ");
                s.append(ar.elm_id.as_str());
                s.append("Ref);");
                let ghost sv = s@;
                let ghost prev = out.deep_view();
                out.push(s);
                j = j + 1;
                proof {
                    assert(out.deep_view() =~= prev.push(sv));
                    assert(arv.reactive_attr[j as int - 1] == ar.reactive_attr@[j as int - 1]@);
                    assert(sv =~= spec_attr_stmt(arv, arv.reactive_attr[j as int - 1], ids, vars));
                    assert(out.deep_view() =~= spec_relation_stmts(rel@, ids, vars).take(
                        j as int,
                    ));
                }
            }
            proof {
                assert(spec_relation_stmts(rel@, ids, vars).take(
                    arv.reactive_attr.len() as int,
                ) =~= spec_relation_stmts(rel@, ids, vars));
            }
        },
        ElmAndReactiveInfo::ElmAndVariableRelation(cr) => {
            let ghost crv = cr@;
            let prefix = ctx_prefix(&cr.ctx, if_blocks_infos);
            let d = dep_mask(&cr.variable_names, variable_name_and_assigned_numbers);
            let ds = u32_to_string(d);
            let under = cr.ctx.len() != 0;
            let mut s = prefix;
            if under {
                let n = crate::targets::containment_mask(&cr.ctx, if_blocks_infos);
                let ns = u32_to_string(n);
                s.append("(refs[2] & ");
                s.append(ds.as_str());
                s.append(" && ((refs[4] & ");
                s.append(ns.as_str());
                s.append(") ^ ");
                s.append(ns.as_str());
                s.append(") )");
            } else {
                s.append("refs[2] & ");
                s.append(ds.as_str());
            }
            s.append(" && replaceInnerText(`");
            let trimmed = trim_str(cr.content_of_element.as_str());
            s.append(trimmed.as_str());
            s.append("`, ");
            s.append(cr.elm_id.as_str());
            s.append("Ref);");
            let ghost sv = s@;
            out.push(s);
            proof {
                assert(crv.ctx.len() == cr.ctx@.len());
                assert(sv =~= spec_content_stmt(crv, ids, vars));
                assert(out.deep_view() =~= seq![spec_content_stmt(crv, ids, vars)]);
            }
        },
        ElmAndReactiveInfo::TextAndVariableContentRelation(tr) => {
            let ghost trv = tr@;
            let prefix = ctx_prefix(&tr.ctx, if_blocks_infos);
            let d = dep_mask(&tr.variable_names, variable_name_and_assigned_numbers);
            let ds = u32_to_string(d);
            let under = tr.ctx.len() != 0;
            let mut s = prefix;
            if under {
                let n = crate::targets::containment_mask(&tr.ctx, if_blocks_infos);
                let ns = u32_to_string(n);
                s.append("(refs[2] & ");
                s.append(ds.as_str());
                s.append(" && ((refs[4] & ");
                s.append(ns.as_str());
                s.append(") ^ ");
                s.append(ns.as_str());
                s.append(") )");
            } else {
                s.append("refs[2] & ");
                s.append(ds.as_str());
            }
            s.append(" && replaceText(`");
            let trimmed = trim_str(tr.content_of_element.as_str());
            s.append(trimmed.as_str());
            s.append("`, ");
            s.append(tr.text_node_id.as_str());
            s.append("Text);");
            let ghost sv = s@;
            out.push(s);
            proof {
                assert(trv.ctx.len() == tr.ctx@.len());
                assert(sv =~= spec_text_stmt(trv, ids, vars));
                assert(out.deep_view() =~= seq![spec_text_stmt(trv, ids, vars)]);
            }
        },
    }
    out
}

/// Emits the single patch function: one guarded statement per conditional
/// toggle and per binding, toggles first so content updates never target
/// elements whose existence just changed.
pub fn gen_update_func_statement(
    elm_and_variable_relations: &Vec<ElmAndReactiveInfo>,
    variable_name_and_assigned_numbers: &Vec<VariableNameAndAssignedNumber>,
    if_blocks_infos: &Vec<IfBlockInfo>,
) -> (r: String)
    requires
        if_blocks_infos@.len() <= 32,
    ensures
        r@ == spec_gen_update_func(
            elm_and_variable_relations.deep_view(),
            variable_name_and_assigned_numbers.deep_view(),
            if_blocks_infos.deep_view(),
        ),
{
    let ghost ids = spec_block_ids(if_blocks_infos.deep_view());
    let ghost vars = variable_name_and_assigned_numbers.deep_view();
    let ghost blocks = if_blocks_infos.deep_view();
    let ghost relsv = elm_and_variable_relations.deep_view();
    let mut stmts: Vec<String> = Vec::new();
    let mut i: usize = 0;
    proof {
        assert(stmts.deep_view() =~= spec_toggle_stmts(blocks, vars).take(0));
    }
    while i < if_blocks_infos.len()
        invariant
            0 <= i <= if_blocks_infos@.len() <= 32,
            ids == spec_block_ids(if_blocks_infos.deep_view()),
            vars == variable_name_and_assigned_numbers.deep_view(),
            blocks == if_blocks_infos.deep_view(),
            blocks.len() == if_blocks_infos@.len(),
            stmts.deep_view() == spec_toggle_stmts(blocks, vars).take(i as int),
        decreases if_blocks_infos@.len() - i,
    {
        let blk = &if_blocks_infos[i];
        let ghost blkv = blocks[i as int];
        let prefix = ctx_prefix(&blk.ctx, if_blocks_infos);
        let d = dep_mask(&blk.condition_dep_vars, variable_name_and_assigned_numbers);
        let ds = u32_to_string(d);
        let bit: u32 = 1u32 << (i as u32);
        let bits = u32_to_string(bit);
        let mut s = prefix;
        s.append("refs[2] & ");
        s.append(ds.as_str());
        s.append(" && ( ");
        s.append(blk.condition.as_str());
        s.append(" ? ");
        s.append("render");
        s.append(blk.if_block_id.as_str());
        s.append("Elm()");
        s.append(" : (");
        s.append(blk.if_block_id.as_str());
        s.append("Ref.remove()");
        s.append(", ");
        s.append(blk.if_block_id.as_str());
        s.append("Ref = null");
        s.append(", ");
        s.append("refs[3] ^= ");
        s.append(bits.as_str());
        s.append(") );");
        let ghost sv = s@;
        let ghost prev = stmts.deep_view();
        stmts.push(s);
        i = i + 1;
        proof {
            assert(stmts.deep_view() =~= prev.push(sv));
            assert(blkv == if_blocks_infos@[i as int - 1]@);
            assert(sv =~= spec_if_toggle_stmt(blkv, i as int - 1, ids, vars));
            assert(stmts.deep_view() =~= spec_toggle_stmts(blocks, vars).take(i as int));
        }
    }
    proof {
        assert(spec_toggle_stmts(blocks, vars).take(blocks.len() as int) =~= spec_toggle_stmts(
            blocks,
            vars,
        ));
    }
    let mut k: usize = 0;
    proof {
        assert(relsv.take(0) =~= Seq::<ElmAndReactiveInfoV>::empty());
        assert(stmts.deep_view() =~= spec_toggle_stmts(blocks, vars) + spec_all_rel_stmts(
            relsv.take(0),
            ids,
            vars,
        ));
    }
    while k < elm_and_variable_relations.len()
        invariant
            0 <= k <= elm_and_variable_relations@.len(),
            if_blocks_infos@.len() <= 32,
            ids == spec_block_ids(if_blocks_infos.deep_view()),
            vars == variable_name_and_assigned_numbers.deep_view(),
            blocks == if_blocks_infos.deep_view(),
            relsv == elm_and_variable_relations.deep_view(),
            relsv.len() == elm_and_variable_relations@.len(),
            stmts.deep_view() == spec_toggle_stmts(blocks, vars) + spec_all_rel_stmts(
                relsv.take(k as int),
                ids,
                vars,
            ),
        decreases elm_and_variable_relations@.len() - k,
    {
        let mut rs = relation_stmts(
            &elm_and_variable_relations[k],
            variable_name_and_assigned_numbers,
            if_blocks_infos,
        );
        let ghost rsv = rs.deep_view();
        let ghost prev = stmts.deep_view();
        stmts.append(&mut rs);
        k = k + 1;
        proof {
            assert(stmts.deep_view() =~= prev + rsv);
            assert(relsv.take(k as int).drop_last() =~= relsv.take(k as int - 1));
            assert(relsv.take(k as int).last() == relsv[k as int - 1]);
            assert(relsv[k as int - 1] == elm_and_variable_relations@[k as int - 1]@);
            assert(spec_all_rel_stmts(relsv.take(k as int), ids, vars) =~= spec_all_rel_stmts(
                relsv.take(k as int - 1),
                ids,
                vars,
            ) + spec_relation_stmts(relsv[k as int - 1], ids, vars));
            assert(stmts.deep_view() =~= spec_toggle_stmts(blocks, vars) + spec_all_rel_stmts(
                relsv.take(k as int),
                ids,
                vars,
            ));
        }
    }
    proof {
        assert(relsv.take(relsv.len() as int) =~= relsv);
    }
    let ghost all = spec_toggle_stmts(blocks, vars) + spec_all_rel_stmts(relsv, ids, vars);
    let ghost mapped = all.map(|i: int, l: Seq<char>| spec_create_indent(l));
    let mut indented: Vec<String> = Vec::new();
    let mut p: usize = 0;
    proof {
        assert(indented.deep_view() =~= mapped.take(0));
    }
    while p < stmts.len()
        invariant
            0 <= p <= stmts@.len(),
            stmts.deep_view() == all,
            all.len() == stmts@.len(),
            mapped == all.map(|i: int, l: Seq<char>| spec_create_indent(l)),
            indented.deep_view() == mapped.take(p as int),
        decreases stmts@.len() - p,
    {
        let line = create_indent(stmts[p].as_str());
        let ghost lv = line@;
        let ghost prev = indented.deep_view();
        indented.push(line);
        p = p + 1;
        proof {
            assert(indented.deep_view() =~= prev.push(lv));
            assert(lv == spec_create_indent(stmts@[p as int - 1]@));
            assert(mapped[p as int - 1] == spec_create_indent(all[p as int - 1]));
            assert(indented.deep_view() =~= mapped.take(p as int));
        }
    }
    proof {
        assert(mapped.take(mapped.len() as int) =~= mapped);
    }
    let body = join_strings(&indented, "\n");
    let mut r = String::from_str("refs[0] = genUpdateFunc(() => {\n");
    r.append(body.as_str());
    r.append("\n});");
    proof {
        assert(r@ =~= spec_gen_update_func(relsv, vars, blocks));
    }
    r
}

/// The anchor data of one conditional block, as the anchor emitter needs
/// it.
pub struct IfBlockAnchorRenderer {
    pub if_block_id: String,
    pub parent_id: String,
    pub distance_to_next_elm: usize,
    pub target_anchor_id: Option<String>,
    pub ctx: Vec<String>,
    pub element_location: Vec<usize>,
}

/// The ghost form of a block's anchor data.
#[verifier::ext_equal]
pub struct IfBlockAnchorRendererV {
    pub if_block_id: Seq<char>,
    pub parent_id: Seq<char>,
    pub distance_to_next_elm: usize,
    pub target_anchor_id: Option<Seq<char>>,
    pub ctx: Seq<Seq<char>>,
    pub element_location: Seq<usize>,
}

impl View for IfBlockAnchorRenderer {
    type V = IfBlockAnchorRendererV;

    open spec fn view(&self) -> IfBlockAnchorRendererV {
        IfBlockAnchorRendererV {
            if_block_id: self.if_block_id@,
            parent_id: self.parent_id@,
            distance_to_next_elm: self.distance_to_next_elm,
            target_anchor_id: match self.target_anchor_id {
                Some(ref s) => Some(s@),
                None => None,
            },
            ctx: self.ctx.deep_view(),
            element_location: self.element_location@,
        }
    }
}

/// A node that must be rendered by the creation code rather than by the
/// static markup: a manually rendered text node, or a conditional block's
/// anchor.
pub enum TextNodeRenderer {
    ManualRenderer(ManualRendererForTextNode),
    IfBlockRenderer(IfBlockAnchorRenderer),
}

/// The ghost form of a manual renderer.
#[verifier::ext_equal]
pub enum TextNodeRendererV {
    ManualRenderer(ManualRendererForTextNodeV),
    IfBlockRenderer(IfBlockAnchorRendererV),
}

impl View for TextNodeRenderer {
    type V = TextNodeRendererV;

    open spec fn view(&self) -> TextNodeRendererV {
        match self {
            TextNodeRenderer::ManualRenderer(m) => TextNodeRendererV::ManualRenderer(m@),
            TextNodeRenderer::IfBlockRenderer(b) => TextNodeRendererV::IfBlockRenderer(b@),
        }
    }
}

impl DeepView for TextNodeRenderer {
    type V = TextNodeRendererV;

    open spec fn deep_view(&self) -> TextNodeRendererV {
        self.view()
    }
}

/// All manual renderers of a compilation: one per conditional block, then
/// one per excised text node.
pub struct TextNodeRendererGroup {
    pub renderers: Vec<TextNodeRenderer>,
}

/// The anchor data drawn from one conditional block.
pub open spec fn spec_block_renderer(b: IfBlockInfoV) -> TextNodeRendererV {
    TextNodeRendererV::IfBlockRenderer(
        IfBlockAnchorRendererV {
            if_block_id: b.if_block_id,
            parent_id: b.parent_id,
            distance_to_next_elm: b.distance_to_next_elm,
            target_anchor_id: b.target_anchor_id,
            ctx: b.ctx,
            element_location: b.element_location,
        },
    )
}

/// The combined renderer list of a compilation.
pub open spec fn spec_renderer_group(
    blocks: Seq<IfBlockInfoV>,
    txts: Seq<ManualRendererForTextNodeV>,
) -> Seq<TextNodeRendererV> {
    Seq::new(blocks.len(), |i: int| spec_block_renderer(blocks[i])) + Seq::new(
        txts.len(),
        |i: int| TextNodeRendererV::ManualRenderer(txts[i]),
    )
}

/// The source position a renderer is keyed by.
pub open spec fn spec_renderer_loc(r: TextNodeRendererV) -> Seq<usize> {
    match r {
        TextNodeRendererV::ManualRenderer(m) => m.element_location,
        TextNodeRendererV::IfBlockRenderer(b) => b.element_location,
    }
}

/// The order of two renderers: by source position.
pub open spec fn spec_renderer_le(a: TextNodeRendererV, b: TextNodeRendererV) -> bool {
    spec_loc_le(spec_renderer_loc(a), spec_renderer_loc(b))
}

/// The source position a renderer is keyed by.
pub fn renderer_loc(r: &TextNodeRenderer) -> (l: &Vec<usize>)
    ensures
        l@ == spec_renderer_loc(r@),
{
    match r {
        TextNodeRenderer::ManualRenderer(m) => &m.element_location,
        TextNodeRenderer::IfBlockRenderer(b) => &b.element_location,
    }
}

impl TextNodeRendererGroup {
    /// Gathers every manual renderer of the compilation: the conditional
    /// blocks' anchors, then the excised text nodes.
    pub fn new(
        if_blocks_info: &Vec<IfBlockInfo>,
        text_node_renderer: &Vec<ManualRendererForTextNode>,
    ) -> (r: TextNodeRendererGroup)
        ensures
            r.renderers.deep_view() == spec_renderer_group(
                if_blocks_info.deep_view(),
                text_node_renderer.deep_view(),
            ),
    {
        let ghost bv = if_blocks_info.deep_view();
        let ghost tv = text_node_renderer.deep_view();
        let ghost target = spec_renderer_group(bv, tv);
        let mut renderers: Vec<TextNodeRenderer> = Vec::new();
        let mut i: usize = 0;
        proof {
            assert(renderers.deep_view() =~= target.take(0));
        }
        while i < if_blocks_info.len()
            invariant
                0 <= i <= if_blocks_info@.len(),
                bv == if_blocks_info.deep_view(),
                tv == text_node_renderer.deep_view(),
                bv.len() == if_blocks_info@.len(),
                target == spec_renderer_group(bv, tv),
                renderers.deep_view() == target.take(i as int),
            decreases if_blocks_info@.len() - i,
        {
            let b = &if_blocks_info[i];
            let item = TextNodeRenderer::IfBlockRenderer(
                IfBlockAnchorRenderer {
                    if_block_id: b.if_block_id.clone(),
                    parent_id: b.parent_id.clone(),
                    distance_to_next_elm: b.distance_to_next_elm,
                    target_anchor_id: match &b.target_anchor_id {
                        Some(s) => Some(s.clone()),
                        None => None,
                    },
                    ctx: clone_string_vec(&b.ctx),
                    element_location: clone_usize_vec(&b.element_location),
                },
            );
            let ghost iv = item@;
            let ghost prev = renderers.deep_view();
            renderers.push(item);
            i = i + 1;
            proof {
                assert(renderers.deep_view() =~= prev.push(iv));
                assert(bv[i as int - 1] == if_blocks_info@[i as int - 1]@);
                assert(iv =~~= spec_block_renderer(bv[i as int - 1]));
                assert(target[i as int - 1] == spec_block_renderer(bv[i as int - 1]));
                assert(renderers.deep_view() =~= target.take(i as int));
            }
        }
        let mut j: usize = 0;
        while j < text_node_renderer.len()
            invariant
                0 <= j <= text_node_renderer@.len(),
                bv == if_blocks_info.deep_view(),
                tv == text_node_renderer.deep_view(),
                bv.len() == if_blocks_info@.len(),
                tv.len() == text_node_renderer@.len(),
                target == spec_renderer_group(bv, tv),
                renderers.deep_view() == target.take(bv.len() + j as int),
            decreases text_node_renderer@.len() - j,
        {
            let t = &text_node_renderer[j];
            let item = TextNodeRenderer::ManualRenderer(
                ManualRendererForTextNode {
                    parent_id: t.parent_id.clone(),
                    text_node_id: t.text_node_id.clone(),
                    distance_to_next_elm: t.distance_to_next_elm,
                    dep_vars: clone_string_vec(&t.dep_vars),
                    content: t.content.clone(),
                    ctx: clone_string_vec(&t.ctx),
                    element_location: clone_usize_vec(&t.element_location),
                    target_anchor_id: match &t.target_anchor_id {
                        Some(s) => Some(s.clone()),
                        None => None,
                    },
                },
            );
            let ghost iv = item@;
            let ghost prev = renderers.deep_view();
            renderers.push(item);
            j = j + 1;
            proof {
                assert(renderers.deep_view() =~= prev.push(iv));
                assert(tv[j as int - 1] == text_node_renderer@[j as int - 1]@);
                assert(iv =~~= TextNodeRendererV::ManualRenderer(tv[j as int - 1]));
                assert(target[bv.len() + j as int - 1] == TextNodeRendererV::ManualRenderer(
                    tv[j as int - 1],
                ));
                assert(renderers.deep_view() =~= target.take(bv.len() + j as int));
            }
        }
        proof {
            assert(target.take(target.len() as int) =~= target);
        }
        TextNodeRendererGroup { renderers }
    }

    /// Sorts the renderers by source position, stably, fixing the order of
    /// the emitted anchor-creation statements.
    pub fn sort_by_rendering_order(&mut self)
        ensures
            final (self).renderers.deep_view() == spec_insertion_sort(
                old(self).renderers.deep_view(),
                |a: TextNodeRendererV, b: TextNodeRendererV| spec_renderer_le(a, b),
            ),
    {
        let ghost le = |a: TextNodeRendererV, b: TextNodeRendererV| spec_renderer_le(a, b);
        let ghost orig = self.renderers.deep_view();
        let mut out: Vec<TextNodeRenderer> = Vec::new();
        let ghost i: int = 0;
        proof {
            assert(orig.take(0) =~= Seq::<TextNodeRendererV>::empty());
            assert(self.renderers.deep_view() =~= orig.skip(0));
        }
        while self.renderers.len() > 0
            invariant
                0 <= i <= orig.len(),
                self.renderers.deep_view() == orig.skip(i),
                self.renderers@.len() == orig.len() - i,
                out.deep_view() == spec_insertion_sort(orig.take(i), le),
                le == (|a: TextNodeRendererV, b: TextNodeRendererV| spec_renderer_le(a, b)),
            decreases self.renderers@.len(),
        {
            let ghost prev = self.renderers.deep_view();
            let ghost prevv = self.renderers@;
            let x = self.renderers.remove(0);
            proof {
                assert(x == prevv[0]);
                assert(x@ == prev[0]);
                assert(x@ == orig.skip(i)[0]);
                assert(x@ == orig[i]);
                assert forall|k: int|
                    0 <= k < self.renderers@.len() implies #[trigger] self.renderers.deep_view()[k]
                    == orig.skip(i + 1)[k] by {
                    assert(self.renderers@[k] == prevv.remove(0)[k]);
                    assert(self.renderers@[k] == prevv[k + 1]);
                    assert(self.renderers.deep_view()[k] == prev[k + 1]);
                    assert(prev[k + 1] == orig.skip(i)[k + 1]);
                    assert(orig.skip(i)[k + 1] == orig.skip(i + 1)[k]);
                }
                assert(self.renderers.deep_view() =~= orig.skip(i + 1));
            }
            let ghost sorted = out.deep_view();
            let mut j: usize = out.len();
            while j > 0 && !loc_le(renderer_loc(&out[j - 1]), renderer_loc(&x))
                invariant
                    0 <= j <= out@.len(),
                    out.deep_view() == sorted,
                    x@ == orig[i],
                    forall|k: int| j <= k < sorted.len() ==> !le(#[trigger] sorted[k], x@),
                    le == (|a: TextNodeRendererV, b: TextNodeRendererV| spec_renderer_le(a, b)),
                decreases j,
            {
                j = j - 1;
                proof {
                    assert(sorted[j as int] == out@[j as int]@);
                    assert(!le(sorted[j as int], x@));
                }
            }
            proof {
                if j > 0 {
                    assert(sorted[j as int - 1] == out@[j as int - 1]@);
                    assert(le(sorted[j as int - 1], x@));
                }
                lemma_insert_sorted_at(x@, sorted, le, j as int);
            }
            out.insert(j, x);
            proof {
                assert(out.deep_view() =~= sorted.subrange(0, j as int) + seq![orig[i]]
                    + sorted.subrange(j as int, sorted.len() as int));
                assert(out.deep_view() == spec_insert_sorted(orig[i], sorted, le));
                assert(orig.take(i + 1).drop_last() =~= orig.take(i));
                assert(orig.take(i + 1).last() == orig[i]);
            }
            proof {
                i = i + 1;
            }
        }
        proof {
            assert(orig.take(orig.len() as int) =~= orig);
        }
        self.renderers = out;
    }
}

/// The reference the creation code inserts before: a captured sibling, or
/// null to append.
pub open spec fn spec_anchor_ref(a: Option<Seq<char>>) -> Seq<char> {
    match a {
        Some(x) => x + "Ref"@,
        None => "null"@,
    }
}

/// The anchor-creation statements one renderer contributes under the given
/// context: a manually rendered text node in that context is inserted as a
/// live text node; a conditional block in that context whose next element
/// sibling is more than one position away gets a synthetic empty anchor;
/// everything else contributes nothing.
pub open spec fn spec_anchor_unit(r: TextNodeRendererV, cond: Seq<Seq<char>>) -> Seq<Seq<char>> {
    match r {
        TextNodeRendererV::ManualRenderer(t) => if t.ctx == cond {
            seq![
                "const "@ + t.text_node_id + "Text = insertContent(`"@ + spec_trim(t.content)
                    + "`,"@ + t.parent_id + "Ref,"@ + spec_anchor_ref(t.target_anchor_id) + ");"@,
            ]
        } else {
            Seq::empty()
        },
        TextNodeRendererV::IfBlockRenderer(b) => if b.distance_to_next_elm > 1 && b.ctx == cond {
            seq![
                "const "@ + b.if_block_id + "Anchor = insertEmpty("@ + b.parent_id + "Ref,"@
                    + spec_anchor_ref(b.target_anchor_id) + ");"@,
            ]
        } else {
            Seq::empty()
        },
    }
}

/// The anchor-creation statements of all renderers, in sorted order.
pub open spec fn spec_anchor_stmts(rs: Seq<TextNodeRendererV>, cond: Seq<Seq<char>>) -> Seq<
    Seq<char>,
>
    decreases rs.len(),
{
    if rs.len() == 0 {
        Seq::empty()
    } else {
        spec_anchor_stmts(rs.drop_last(), cond) + spec_anchor_unit(rs.last(), cond)
    }
}

fn anchor_ref(a: &Option<String>) -> (r: String)
    ensures
        r@ == spec_anchor_ref(match a {
            Some(s) => Some(s@),
            None => None,
        }),
{
    match a {
        Some(s) => {
            let mut r = s.clone();
            r.append("Ref");
            r
        },
        None => String::from_str("null"),
    }
}

/// Sorts the renderers by source position and emits, for those in the given
/// context, the statements creating live text nodes and synthetic anchors.
pub fn gen_create_anchor_statements(
    text_node_renderer: &mut TextNodeRendererGroup,
    ctx_condition: &Vec<String>,
) -> (r: Vec<String>)
    ensures
        final (text_node_renderer).renderers.deep_view() == spec_insertion_sort(
            old(text_node_renderer).renderers.deep_view(),
            |a: TextNodeRendererV, b: TextNodeRendererV| spec_renderer_le(a, b),
        ),
        r.deep_view() == spec_anchor_stmts(
            final (text_node_renderer).renderers.deep_view(),
            ctx_condition.deep_view(),
        ),
{
    text_node_renderer.sort_by_rendering_order();
    let ghost rs = text_node_renderer.renderers.deep_view();
    let ghost cond = ctx_condition.deep_view();
    let mut out: Vec<String> = Vec::new();
    let mut i: usize = 0;
    proof {
        assert(rs.take(0) =~= Seq::<TextNodeRendererV>::empty());
        assert(out.deep_view() =~= spec_anchor_stmts(rs.take(0), cond));
    }
    while i < text_node_renderer.renderers.len()
        invariant
            0 <= i <= text_node_renderer.renderers@.len(),
            rs == text_node_renderer.renderers.deep_view(),
            rs.len() == text_node_renderer.renderers@.len(),
            cond == ctx_condition.deep_view(),
            out.deep_view() == spec_anchor_stmts(rs.take(i as int), cond),
        decreases text_node_renderer.renderers@.len() - i,
    {
        let ghost prev = out.deep_view();
        match &text_node_renderer.renderers[i] {
            TextNodeRenderer::ManualRenderer(t) => {
                if vec_string_eq(&t.ctx, ctx_condition) {
                    let mut s = String::from_str("const ");
                    s.append(t.text_node_id.as_str());
                    s.append("Text = insertContent(`");
                    let trimmed = trim_str(t.content.as_str());
                    s.append(trimmed.as_str());
                    s.append("`,");
                    s.append(t.parent_id.as_str());
                    s.append("Ref,");
                    let ar = anchor_ref(&t.target_anchor_id);
                    s.append(ar.as_str());
                    s.append(");");
                    let ghost sv = s@;
                    out.push(s);
                    proof {
                        assert(out.deep_view() =~= prev.push(sv));
                        assert(rs[i as int] == text_node_renderer.renderers@[i as int]@);
                        assert(spec_anchor_unit(rs[i as int], cond) =~= seq![sv]);
                    }
                }
            },
            TextNodeRenderer::IfBlockRenderer(b) => {
                if b.distance_to_next_elm > 1 && vec_string_eq(&b.ctx, ctx_condition) {
                    let mut s = String::from_str("const ");
                    s.append(b.if_block_id.as_str());
                    s.append("Anchor = insertEmpty(");
                    s.append(b.parent_id.as_str());
                    s.append("Ref,");
                    let ar = anchor_ref(&b.target_anchor_id);
                    s.append(ar.as_str());
                    s.append(");");
                    let ghost sv = s@;
                    out.push(s);
                    proof {
                        assert(out.deep_view() =~= prev.push(sv));
                        assert(rs[i as int] == text_node_renderer.renderers@[i as int]@);
                        assert(spec_anchor_unit(rs[i as int], cond) =~= seq![sv]);
                    }
                }
            },
        }
        i = i + 1;
        proof {
            assert(rs.take(i as int).drop_last() =~= rs.take(i as int - 1));
            assert(rs.take(i as int).last() == rs[i as int - 1]);
            assert(rs[i as int - 1] == text_node_renderer.renderers@[i as int - 1]@);
            if spec_anchor_unit(rs[i as int - 1], cond).len() == 0 {
                assert(out.deep_view() =~= prev + spec_anchor_unit(rs[i as int - 1], cond));
            }
            assert(out.deep_view() =~= spec_anchor_stmts(rs.take(i as int), cond));
        }
    }
    proof {
        assert(rs.take(rs.len() as int) =~= rs);
    }
    out
}

/// The statements building a detached sub-tree at run time: create the root
/// element, set its attributes, and fill its children through the static
/// markup text. A block whose detached node is not an element builds
/// nothing.
pub open spec fn spec_gen_elm_js_lines(n: NodeV, bid: Seq<char>) -> Seq<Seq<char>> {
    match n.content {
        NodeContentV::Element(e) => seq![
            bid + "Ref = document.createElement(\""@ + e.name + "\");"@,
        ] + Seq::new(
            e.attributes.len(),
            |i: int|
                bid + "Ref.setAttribute(\""@ + e.attributes[i].0 + "\", `"@ + (
                match e.attributes[i].1 {
                    Some(v) => v,
                    None => Seq::<char>::empty(),
                }) + "`);"@,
        ) + (if e.children.len() > 0 {
            seq![bid + "Ref.innerHTML = `"@ + spec_children_str(e.children) + "`;"@]
        } else {
            Seq::<Seq<char>>::empty()
        }),
        _ => Seq::empty(),
    }
}

/// Emits the statements that build a conditional block's detached sub-tree,
/// returning the name of the built reference and the statements.
#[verifier::loop_isolation(false)]
pub fn generate_element_on_js(node: &Node, block_id: &String) -> (r: (String, Vec<String>))
    ensures
        r.0@ == block_id@ + "Ref"@,
        r.1.deep_view() == spec_gen_elm_js_lines(node@, block_id@),
{
    let mut name = block_id.clone();
    name.append("Ref");
    let mut lines: Vec<String> = Vec::new();
    let ghost target = spec_gen_elm_js_lines(node@, block_id@);
    match &node.content {
        NodeContent::Element(e) => {
            let ghost ev = (match node@.content {
                NodeContentV::Element(x) => x,
                _ => arbitrary(),
            });
            let mut first = block_id.clone();
            first.append("Ref = document.createElement(\"");
            first.append(e.name.as_str());
            first.append("\");");
            let ghost fv = first@;
            lines.push(first);
            proof {
                assert(fv =~= target[0]);
                assert(lines.deep_view() =~= target.take(1));
            }
            let mut i: usize = 0;
            while i < e.attributes.len()
                invariant
                    0 <= i <= e.attributes@.len(),
                    ev.attributes.len() == e.attributes@.len(),
                    lines.deep_view() == target.take(1 + i as int),
                decreases e.attributes@.len() - i,
            {
                let mut s = block_id.clone();
                s.append("Ref.setAttribute(\"");
                s.append(e.attributes[i].0.as_str());
                s.append("\", `");
                match &e.attributes[i].1 {
                    Some(v) => {
                        s.append(v.as_str());
                    },
                    None => {},
                }
                s.append("`);");
                let ghost sv = s@;
                let ghost prev = lines.deep_view();
                lines.push(s);
                i = i + 1;
                proof {
                    assert(lines.deep_view() =~= prev.push(sv));
                    assert(ev.attributes[i as int - 1] == (
                        e.attributes@[i as int - 1].0@,
                        opt_str_view(e.attributes@[i as int - 1].1),
                    ));
                    assert(sv =~= target[i as int]);
                    assert(lines.deep_view() =~= target.take(1 + i as int));
                }
            }
            if e.children.len() > 0 {
                let mut s = block_id.clone();
                s.append("Ref.innerHTML = `");
                let mut j: usize = 0;
                proof {
                    lemma_nodes_view(e.children@);
                    assert(ev.children.take(0) =~= Seq::<NodeV>::empty());
                    assert(s@ =~= block_id@ + "Ref.innerHTML = `"@ + spec_children_str(
                        ev.children.take(0),
                    ));
                }
                while j < e.children.len()
                    invariant
                        0 <= j <= e.children@.len(),
                        ev.children.len() == e.children@.len(),
                        ev.children == nodes_view(e.children@),
                        s@ == block_id@ + "Ref.innerHTML = `"@ + spec_children_str(
                            ev.children.take(j as int),
                        ),
                    decreases e.children@.len() - j,
                {
                    let cs = e.children[j].to_html_string();
                    s.append(cs.as_str());
                    j = j + 1;
                    proof {
                        lemma_nodes_view(e.children@);
                        assert(ev.children.take(j as int).drop_last() =~= ev.children.take(
                            j as int - 1,
                        ));
                        assert(ev.children.take(j as int).last() == ev.children[j as int - 1]);
                        assert(ev.children[j as int - 1] == node_view(e.children@[j as int - 1]));
                        assert(s@ =~= block_id@ + "Ref.innerHTML = `"@ + spec_children_str(
                            ev.children.take(j as int),
                        ));
                    }
                }
                proof {
                    assert(ev.children.take(ev.children.len() as int) =~= ev.children);
                }
                s.append("`;");
                let ghost sv = s@;
                let ghost prev = lines.deep_view();
                lines.push(s);
                proof {
                    assert(lines.deep_view() =~= prev.push(sv));
                    assert(sv =~= target[target.len() - 1]);
                    assert(lines.deep_view() =~= target);
                }
            } else {
                proof {
                    assert(lines.deep_view() =~= target);
                }
            }
        },
        _ => {
            proof {
                assert(lines.deep_view() =~= target);
            }
        },
    }
    (name, lines)
}

/// The captured-reference requests a block's creation routine must resolve:
/// those in the block's own context, excluding the block's own node.
pub open spec fn spec_block_ctx_ids(
    needed: Seq<NeededIdNameV>,
    blk_ctx: Seq<Seq<char>>,
    blk_id: Seq<char>,
) -> Seq<NeededIdNameV>
    decreases needed.len(),
{
    if needed.len() == 0 {
        Seq::empty()
    } else {
        spec_block_ctx_ids(needed.drop_last(), blk_ctx, blk_id) + (if needed.last().ctx == blk_ctx
            && needed.last().node_id != blk_id {
            seq![needed.last()]
        } else {
            Seq::<NeededIdNameV>::empty()
        })
    }
}

/// A filtered request list is never longer than its source.
pub proof fn lemma_block_ctx_ids_len(
    needed: Seq<NeededIdNameV>,
    blk_ctx: Seq<Seq<char>>,
    blk_id: Seq<char>,
)
    ensures
        spec_block_ctx_ids(needed, blk_ctx, blk_id).len() <= needed.len(),
    decreases needed.len(),
{
    if needed.len() > 0 {
        lemma_block_ctx_ids_len(needed.drop_last(), blk_ctx, blk_id);
    }
}

/// The reference getter inside a block's creation routine, empty when the
/// block captures nothing of its own.
pub open spec fn spec_block_ref_getter(
    needed: Seq<NeededIdNameV>,
    blk_ctx: Seq<Seq<char>>,
    blk_id: Seq<char>,
) -> Seq<char> {
    let f = spec_block_ctx_ids(needed, blk_ctx, blk_id);
    if f.len() > 0 {
        "\n["@ + spec_join(spec_ref_names(f), ", "@) + "] = getElmRefs(["@ + spec_join(
            spec_quoted_ids(f),
            ","@,
        ) + "], "@ + spec_dec(spec_bool_map(spec_delete_flags(f)) as nat) + ");"@
    } else {
        Seq::empty()
    }
}

fn block_ctx_pieces(needed_ids: &Vec<NeededIdName>, blk_ctx: &Vec<String>, blk_id: &String) -> (r:
    (Vec<String>, Vec<String>, Vec<bool>))
    ensures
        ({
            let f = spec_block_ctx_ids(needed_ids.deep_view(), blk_ctx.deep_view(), blk_id@);
            &&& r.0.deep_view() == spec_ref_names(f)
            &&& r.1.deep_view() == spec_quoted_ids(f)
            &&& r.2@ == spec_delete_flags(f)
            &&& r.2@.len() == f.len()
        }),
{
    let ghost nv = needed_ids.deep_view();
    let ghost cv = blk_ctx.deep_view();
    let mut names: Vec<String> = Vec::new();
    let mut ids: Vec<String> = Vec::new();
    let mut flags: Vec<bool> = Vec::new();
    let mut i: usize = 0;
    proof {
        assert(nv.take(0) =~= Seq::<NeededIdNameV>::empty());
        assert(names.deep_view() =~= spec_ref_names(spec_block_ctx_ids(nv.take(0), cv, blk_id@)));
        assert(ids.deep_view() =~= spec_quoted_ids(spec_block_ctx_ids(nv.take(0), cv, blk_id@)));
        assert(flags@ =~= spec_delete_flags(spec_block_ctx_ids(nv.take(0), cv, blk_id@)));
    }
    while i < needed_ids.len()
        invariant
            0 <= i <= needed_ids@.len(),
            nv == needed_ids.deep_view(),
            cv == blk_ctx.deep_view(),
            nv.len() == needed_ids@.len(),
            names.deep_view() == spec_ref_names(spec_block_ctx_ids(nv.take(i as int), cv, blk_id@)),
            ids.deep_view() == spec_quoted_ids(spec_block_ctx_ids(nv.take(i as int), cv, blk_id@)),
            flags@ == spec_delete_flags(spec_block_ctx_ids(nv.take(i as int), cv, blk_id@)),
            flags@.len() == spec_block_ctx_ids(nv.take(i as int), cv, blk_id@).len(),
        decreases needed_ids@.len() - i,
    {
        let ghost prev_top = spec_block_ctx_ids(nv.take(i as int), cv, blk_id@);
        let ghost prev_names = names.deep_view();
        let ghost prev_ids = ids.deep_view();
        if vec_string_eq(&needed_ids[i].ctx, blk_ctx) && !str_eq(
            needed_ids[i].node_id.as_str(),
            blk_id.as_str(),
        ) {
            let mut nm = needed_ids[i].node_id.clone();
            nm.append("Ref");
            let mut qi = String::from_str("\"");
            qi.append(needed_ids[i].id_name.as_str());
            qi.append("\"");
            let ghost nmv = nm@;
            let ghost qiv = qi@;
            names.push(nm);
            ids.push(qi);
            flags.push(needed_ids[i].to_delete);
            proof {
                assert(names.deep_view() =~= prev_names.push(nmv));
                assert(ids.deep_view() =~= prev_ids.push(qiv));
                assert(nv[i as int] == needed_ids@[i as int]@);
                assert(nmv =~= nv[i as int].node_id + "Ref"@);
                assert(qiv =~= "\""@ + nv[i as int].id_name + "\""@);
            }
        }
        i = i + 1;
        proof {
            assert(nv.take(i as int).drop_last() =~= nv.take(i as int - 1));
            assert(nv.take(i as int).last() == nv[i as int - 1]);
            assert(nv[i as int - 1] == needed_ids@[i as int - 1]@);
            let top = spec_block_ctx_ids(nv.take(i as int), cv, blk_id@);
            if nv[i as int - 1].ctx == cv && nv[i as int - 1].node_id != blk_id@ {
                assert(top =~= prev_top.push(nv[i as int - 1]));
            } else {
                assert(top =~= prev_top);
            }
            assert(names.deep_view() =~= spec_ref_names(top));
            assert(ids.deep_view() =~= spec_quoted_ids(top));
            assert(flags@ =~= spec_delete_flags(top));
        }
    }
    proof {
        assert(nv.take(nv.len() as int) =~= nv);
    }
    (names, ids, flags)
}

/// The guarded invocations of the blocks directly nested under the given
/// context: each cascades creation into a child block when its condition
/// holds.
pub open spec fn spec_child_calls(blocks: Seq<IfBlockInfoV>, blk_ctx: Seq<Seq<char>>) -> Seq<
    Seq<char>,
>
    decreases blocks.len(),
{
    if blocks.len() == 0 {
        Seq::empty()
    } else {
        spec_child_calls(blocks.drop_last(), blk_ctx) + (if blocks.last().ctx == blk_ctx {
            seq![
                blocks.last().condition + " && render"@ + blocks.last().if_block_id + "Elm()"@,
            ]
        } else {
            Seq::<Seq<char>>::empty()
        })
    }
}

/// The child-cascade block of a creation routine, empty when no block is
/// directly nested under this one.
pub open spec fn spec_child_exec(blocks: Seq<IfBlockInfoV>, blk_ctx: Seq<Seq<char>>) -> Seq<char> {
    let cs = spec_child_calls(blocks, blk_ctx);
    if cs.len() > 0 {
        "\n"@ + spec_join(cs, "\n"@)
    } else {
        Seq::empty()
    }
}

fn child_calls(if_block_info: &Vec<IfBlockInfo>, blk_ctx: &Vec<String>) -> (r: Vec<String>)
    ensures
        r.deep_view() == spec_child_calls(if_block_info.deep_view(), blk_ctx.deep_view()),
{
    let ghost bv = if_block_info.deep_view();
    let ghost cv = blk_ctx.deep_view();
    let mut out: Vec<String> = Vec::new();
    let mut i: usize = 0;
    proof {
        assert(bv.take(0) =~= Seq::<IfBlockInfoV>::empty());
        assert(out.deep_view() =~= spec_child_calls(bv.take(0), cv));
    }
    while i < if_block_info.len()
        invariant
            0 <= i <= if_block_info@.len(),
            bv == if_block_info.deep_view(),
            cv == blk_ctx.deep_view(),
            bv.len() == if_block_info@.len(),
            out.deep_view() == spec_child_calls(bv.take(i as int), cv),
        decreases if_block_info@.len() - i,
    {
        let ghost prev = out.deep_view();
        if vec_string_eq(&if_block_info[i].ctx, blk_ctx) {
            let mut s = if_block_info[i].condition.clone();
            s.append(" && render");
            s.append(if_block_info[i].if_block_id.as_str());
            s.append("Elm()");
            let ghost sv = s@;
            out.push(s);
            proof {
                assert(out.deep_view() =~= prev.push(sv));
                assert(bv[i as int] == if_block_info@[i as int]@);
                assert(sv =~= bv[i as int].condition + " && render"@ + bv[i as int].if_block_id
                    + "Elm()"@);
            }
        }
        i = i + 1;
        proof {
            assert(bv.take(i as int).drop_last() =~= bv.take(i as int - 1));
            assert(bv.take(i as int).last() == bv[i as int - 1]);
            assert(bv[i as int - 1] == if_block_info@[i as int - 1]@);
            assert(out.deep_view() =~= spec_child_calls(bv.take(i as int), cv));
        }
    }
    proof {
        assert(bv.take(bv.len() as int) =~= bv);
    }
    out
}

/// The statement inserting a block's freshly built sub-tree: before the
/// synthetic anchor when the next element sibling is distant, before the
/// captured next sibling when one exists, or appended when nothing follows.
pub open spec fn spec_insert_elm(blk: IfBlockInfoV) -> Seq<char> {
    let name = blk.if_block_id + "Ref"@;
    if blk.distance_to_next_elm > 1 {
        blk.parent_id + "Ref.insertBefore("@ + name + ", "@ + blk.if_block_id + "Anchor);"@
    } else {
        match blk.target_anchor_id {
            Some(a) => blk.parent_id + "Ref.insertBefore("@ + name + ", "@ + a + "Ref);"@,
            None => blk.parent_id + "Ref.insertBefore("@ + name + ", null);"@,
        }
    }
}

/// One block's creation routine: build the sub-tree, insert it at its
/// anchor, set the block's active and first-paint bits, capture the
/// references needed strictly within the block's own context, and cascade
/// into directly nested blocks.
pub open spec fn spec_render_def(
    blk: IfBlockInfoV,
    i: int,
    blocks: Seq<IfBlockInfoV>,
    needed: Seq<NeededIdNameV>,
) -> Seq<char> {
    let bit = spec_dec((1u32 << (i as u32)) as nat);
    "const render"@ + blk.if_block_id + "Elm = () => {\n"@ + spec_join(
        spec_gen_elm_js_lines(blk.elm, blk.if_block_id).map(
            |k: int, l: Seq<char>| spec_create_indent(l),
        ),
        "\n"@,
    ) + "\n"@ + spec_create_indent(spec_insert_elm(blk)) + "\n"@ + spec_create_indent(
        "refs[3] |= "@ + bit + ", refs[4] |= "@ + bit + ";"@,
    ) + spec_create_indent(
        spec_block_ref_getter(needed, blk.ctx.push(blk.if_block_id), blk.if_block_id),
    ) + spec_create_indent(spec_child_exec(blocks, blk.ctx.push(blk.if_block_id))) + "\n}"@
}

/// What one block contributes to the creation code: its routine, and for a
/// top-level block one standalone guarded invocation; a nested block's
/// invocation appears only inside its parent's routine.
pub open spec fn spec_render_unit(
    blk: IfBlockInfoV,
    i: int,
    blocks: Seq<IfBlockInfoV>,
    needed: Seq<NeededIdNameV>,
) -> Seq<Seq<char>> {
    seq![spec_render_def(blk, i, blocks, needed)] + (if blk.ctx.len() == 0 {
        seq![blk.condition + " && render"@ + blk.if_block_id + "Elm()"@]
    } else {
        Seq::<Seq<char>>::empty()
    })
}

/// The creation code of all blocks, in sorted order, from block `k` on.
pub open spec fn spec_gen_render_if(
    blocks: Seq<IfBlockInfoV>,
    needed: Seq<NeededIdNameV>,
    k: int,
) -> Seq<Seq<char>>
    decreases blocks.len() - k,
{
    if k < 0 || k >= blocks.len() {
        Seq::empty()
    } else {
        spec_render_unit(blocks[k], k, blocks, needed) + spec_gen_render_if(blocks, needed, k + 1)
    }
}

/// Law: a block's creation code always holds exactly its routine, plus one
/// standalone invocation exactly when the block is top-level. A nested
/// block is never invoked from the top-level statement sequence; its
/// invocation is emitted only inside its direct parent's routine, through
/// the child cascade.
pub proof fn lemma_nested_block_not_invoked_top_level(
    blk: IfBlockInfoV,
    i: int,
    blocks: Seq<IfBlockInfoV>,
    needed: Seq<NeededIdNameV>,
)
    ensures
        blk.ctx.len() > 0 ==> spec_render_unit(blk, i, blocks, needed) =~= seq![
            spec_render_def(blk, i, blocks, needed),
        ],
        blk.ctx.len() == 0 ==> spec_render_unit(blk, i, blocks, needed) =~= seq![
            spec_render_def(blk, i, blocks, needed),
            blk.condition + " && render"@ + blk.if_block_id + "Elm()"@,
        ],
{
}

/// Emits one block's creation routine and, for a top-level block, its
/// standalone invocation.
fn render_if_unit(
    blk: &IfBlockInfo,
    i: usize,
    if_block_info: &Vec<IfBlockInfo>,
    needed_ids: &Vec<NeededIdName>,
) -> (r: Vec<String>)
    requires
        i < 32,
        needed_ids@.len() <= 32,
    ensures
        r.deep_view() == spec_render_unit(
            blk@,
            i as int,
            if_block_info.deep_view(),
            needed_ids.deep_view(),
        ),
{
    let ghost blkv = blk@;
    let ghost bv = if_block_info.deep_view();
    let ghost nv = needed_ids.deep_view();
    let (name, lines) = generate_element_on_js(&blk.elm, &blk.if_block_id);
    let ghost mapped = spec_gen_elm_js_lines(blkv.elm, blkv.if_block_id).map(
        |k: int, l: Seq<char>| spec_create_indent(l),
    );
    let mut indented: Vec<String> = Vec::new();
    let mut p: usize = 0;
    proof {
        assert(indented.deep_view() =~= mapped.take(0));
    }
    while p < lines.len()
        invariant
            0 <= p <= lines@.len(),
            lines.deep_view() == spec_gen_elm_js_lines(blkv.elm, blkv.if_block_id),
            mapped == spec_gen_elm_js_lines(blkv.elm, blkv.if_block_id).map(
                |k: int, l: Seq<char>| spec_create_indent(l),
            ),
            mapped.len() == lines@.len(),
            indented.deep_view() == mapped.take(p as int),
        decreases lines@.len() - p,
    {
        let line = create_indent(lines[p].as_str());
        let ghost lv = line@;
        let ghost prev = indented.deep_view();
        indented.push(line);
        p = p + 1;
        proof {
            assert(indented.deep_view() =~= prev.push(lv));
            assert(lv == spec_create_indent(lines@[p as int - 1]@));
            assert(indented.deep_view() =~= mapped.take(p as int));
        }
    }
    proof {
        assert(mapped.take(mapped.len() as int) =~= mapped);
    }
    let js_code = join_strings(&indented, "\n");
    let insert_elm = if blk.distance_to_next_elm > 1 {
        let mut s = blk.parent_id.clone();
        s.append("Ref.insertBefore(");
        s.append(name.as_str());
        s.append(", ");
        s.append(blk.if_block_id.as_str());
        s.append("Anchor);");
        proof {
            assert(s@ =~= spec_insert_elm(blkv));
        }
        s
    } else {
        match &blk.target_anchor_id {
            Some(a) => {
                let mut s = blk.parent_id.clone();
                s.append("Ref.insertBefore(");
                s.append(name.as_str());
                s.append(", ");
                s.append(a.as_str());
                s.append("Ref);");
                proof {
                    assert(s@ =~= spec_insert_elm(blkv));
                }
                s
            },
            None => {
                let mut s = blk.parent_id.clone();
                s.append("Ref.insertBefore(");
                s.append(name.as_str());
                s.append(", null);");
                proof {
                    assert(s@ =~= spec_insert_elm(blkv));
                }
                s
            },
        }
    };
    let bit: u32 = 1u32 << (i as u32);
    let bits = u32_to_string(bit);
    let mut regs_line = String::from_str("refs[3] |= ");
    regs_line.append(bits.as_str());
    regs_line.append(", refs[4] |= ");
    regs_line.append(bits.as_str());
    regs_line.append(";");
    let mut ctx2 = clone_string_vec(&blk.ctx);
    ctx2.push(blk.if_block_id.clone());
    proof {
        assert(ctx2.deep_view() =~= blkv.ctx.push(blkv.if_block_id));
    }
    let (rnames, rids, rflags) = block_ctx_pieces(needed_ids, &ctx2, &blk.if_block_id);
    let ref_getter = if rnames.len() > 0 {
        proof {
            lemma_block_ctx_ids_len(nv, ctx2.deep_view(), blkv.if_block_id);
        }
        let mut s = String::from_str("\n[");
        let jn = join_strings(&rnames, ", ");
        s.append(jn.as_str());
        s.append("] = getElmRefs([");
        let ji = join_strings(&rids, ",");
        s.append(ji.as_str());
        s.append("], ");
        let map = gen_binary_map_from_bool(&rflags);
        let ms = u32_to_string(map);
        s.append(ms.as_str());
        s.append(");");
        proof {
            assert(s@ =~= spec_block_ref_getter(nv, ctx2.deep_view(), blkv.if_block_id));
        }
        s
    } else {
        let s = String::new();
        proof {
            assert(spec_ref_names(
                spec_block_ctx_ids(nv, ctx2.deep_view(), blkv.if_block_id),
            ).len() == spec_block_ctx_ids(nv, ctx2.deep_view(), blkv.if_block_id).len());
            assert(s@ =~= spec_block_ref_getter(nv, ctx2.deep_view(), blkv.if_block_id));
        }
        s
    };
    let calls = child_calls(if_block_info, &ctx2);
    let child_exec = if calls.len() > 0 {
        let mut s = String::from_str("\n");
        let jc = join_strings(&calls, "\n");
        s.append(jc.as_str());
        proof {
            assert(spec_child_calls(bv, ctx2.deep_view()).len() > 0);
            assert(s@ =~= spec_child_exec(bv, ctx2.deep_view()));
        }
        s
    } else {
        let s = String::new();
        proof {
            assert(s@ =~= spec_child_exec(bv, ctx2.deep_view()));
        }
        s
    };
    let mut def = String::from_str("const render");
    def.append(blk.if_block_id.as_str());
    def.append("Elm = () => {\n");
    def.append(js_code.as_str());
    def.append("\n");
    let ind_insert = create_indent(insert_elm.as_str());
    def.append(ind_insert.as_str());
    def.append("\n");
    let ind_regs = create_indent(regs_line.as_str());
    def.append(ind_regs.as_str());
    let ind_getter = create_indent(ref_getter.as_str());
    def.append(ind_getter.as_str());
    let ind_child = create_indent(child_exec.as_str());
    def.append(ind_child.as_str());
    def.append("\n}");
    let ghost defv = def@;
    let mut out: Vec<String> = Vec::new();
    out.push(def);
    proof {
        assert(regs_line@ =~= "refs[3] |= "@ + spec_dec((1u32 << (i as u32)) as nat)
            + ", refs[4] |= "@ + spec_dec((1u32 << (i as u32)) as nat) + ";"@);
        assert(defv =~= spec_render_def(blkv, i as int, bv, nv));
    }
    if blk.ctx.len() == 0 {
        let mut call = blk.condition.clone();
        call.append(" && render");
        call.append(blk.if_block_id.as_str());
        call.append("Elm()");
        let ghost callv = call@;
        out.push(call);
        proof {
            assert(blkv.ctx.len() == 0);
            assert(callv =~= blkv.condition + " && render"@ + blkv.if_block_id + "Elm()"@);
            assert(out.deep_view() =~= spec_render_unit(blkv, i as int, bv, nv));
        }
    } else {
        proof {
            assert(blkv.ctx.len() != 0);
            assert(out.deep_view() =~= spec_render_unit(blkv, i as int, bv, nv));
        }
    }
    out
}

/// Emits, per conditional block in sorted order, the block's creation
/// routine and, for top-level blocks only, a standalone guarded invocation.
pub fn gen_render_if_statements(
    if_block_info: &Vec<IfBlockInfo>,
    needed_ids: &Vec<NeededIdName>,
) -> (r: Vec<String>)
    requires
        if_block_info@.len() <= 32,
        needed_ids@.len() <= 32,
    ensures
        r.deep_view() == spec_gen_render_if(if_block_info.deep_view(), needed_ids.deep_view(), 0),
{
    let ghost bv = if_block_info.deep_view();
    let ghost nv = needed_ids.deep_view();
    let mut out: Vec<String> = Vec::new();
    let mut i: usize = 0;
    proof {
        assert(out.deep_view() + spec_gen_render_if(bv, nv, 0) =~= spec_gen_render_if(bv, nv, 0));
    }
    while i < if_block_info.len()
        invariant
            0 <= i <= if_block_info@.len() <= 32,
            needed_ids@.len() <= 32,
            bv == if_block_info.deep_view(),
            nv == needed_ids.deep_view(),
            bv.len() == if_block_info@.len(),
            spec_gen_render_if(bv, nv, 0) == out.deep_view() + spec_gen_render_if(
                bv,
                nv,
                i as int,
            ),
        decreases if_block_info@.len() - i,
    {
        let mut unit = render_if_unit(&if_block_info[i], i, if_block_info, needed_ids);
        let ghost uv = unit.deep_view();
        let ghost prev = out.deep_view();
        out.append(&mut unit);
        i = i + 1;
        proof {
            assert(out.deep_view() =~= prev + uv);
            assert(bv[i as int - 1] == if_block_info@[i as int - 1]@);
            assert(spec_gen_render_if(bv, nv, i as int - 1) == spec_render_unit(
                bv[i as int - 1],
                i as int - 1,
                bv,
                nv,
            ) + spec_gen_render_if(bv, nv, i as int));
            assert(out.deep_view() + spec_gen_render_if(bv, nv, i as int) =~= prev
                + spec_gen_render_if(bv, nv, i as int - 1));
        }
    }
    proof {
        assert(spec_gen_render_if(bv, nv, bv.len() as int) =~= Seq::<Seq<char>>::empty());
        assert(out.deep_view() =~= spec_gen_render_if(bv, nv, 0));
    }
    out
}

/// The first position at or after `i` where the pattern occurs, or -1.
pub open spec fn spec_find_sub(s: Seq<char>, pat: Seq<char>, i: int) -> int
    decreases s.len() - i,
        when 0 <= i
{
    if pat.len() == 0 {
        0
    } else if i + pat.len() > s.len() {
        -1
    } else if s.subrange(i, i + pat.len() as int) == pat {
        i
    } else {
        spec_find_sub(s, pat, i + 1)
    }
}

/// Whether the pattern occurs anywhere in the text.
pub open spec fn spec_contains_sub(s: Seq<char>, pat: Seq<char>) -> bool {
    spec_find_sub(s, pat, 0) >= 0
}

/// Whether the pattern occurs anywhere in the text.
pub fn contains_sub(s: &str, pat: &str) -> (r: bool)
    ensures
        r == spec_contains_sub(s@, pat@),
{
    let n = s.unicode_len();
    let m = pat.unicode_len();
    if m == 0 {
        return true;
    }
    if m > n {
        proof {
            assert(spec_find_sub(s@, pat@, 0) == -1);
        }
        return false;
    }
    let mut i: usize = 0;
    while i <= n - m
        invariant
            0 <= i <= n - m + 1,
            1 <= m <= n == s@.len(),
            m == pat@.len(),
            spec_find_sub(s@, pat@, 0) == spec_find_sub(s@, pat@, i as int),
        decreases n - i,
    {
        let piece = s.substring_char(i, i + m);
        if str_eq(piece, pat) {
            proof {
                assert(s@.subrange(i as int, i as int + pat@.len() as int) == pat@);
                assert(spec_find_sub(s@, pat@, i as int) == i as int);
            }
            return true;
        }
        proof {
            assert(s@.subrange(i as int, i as int + pat@.len() as int) != pat@);
            assert(spec_find_sub(s@, pat@, i as int) == spec_find_sub(s@, pat@, i as int + 1));
        }
        i = i + 1;
    }
    proof {
        assert(i + m > n);
        assert(spec_find_sub(s@, pat@, i as int) == -1);
    }
    false
}

/// The runtime primitives, in the runtime library's fixed order.
pub open spec fn spec_import_names() -> Seq<Seq<char>> {
    seq![
        "reactiveValue"@,
        "getElmRefs"@,
        "addEvListener"@,
        "genUpdateFunc"@,
        "escapeHtml"@,
        "replaceInnerText"@,
        "replaceText"@,
        "replaceAttr"@,
        "insertEmpty"@,
        "insertContent"@,
    ]
}

/// The given names that the emitted body actually uses, kept in order.
pub open spec fn spec_filter_contains(code: Seq<char>, names: Seq<Seq<char>>) -> Seq<Seq<char>>
    decreases names.len(),
{
    if names.len() == 0 {
        Seq::empty()
    } else {
        spec_filter_contains(code, names.drop_last()) + (if spec_contains_sub(
            code,
            names.last(),
        ) {
            seq![names.last()]
        } else {
            Seq::<Seq<char>>::empty()
        })
    }
}

/// The runtime primitives the emitted function body actually names, in the
/// runtime library's fixed order.
pub open spec fn spec_import_list(code: Seq<char>) -> Seq<Seq<char>> {
    spec_filter_contains(code, spec_import_names())
}

fn import_list(code: &str) -> (r: Vec<String>)
    ensures
        r.deep_view() == spec_import_list(code@),
{
    let mut names: Vec<&str> = Vec::new();
    names.push("reactiveValue");
    names.push("getElmRefs");
    names.push("addEvListener");
    names.push("genUpdateFunc");
    names.push("escapeHtml");
    names.push("replaceInnerText");
    names.push("replaceText");
    names.push("replaceAttr");
    names.push("insertEmpty");
    names.push("insertContent");
    let ghost nv = spec_import_names();
    proof {
        assert(names@.len() == nv.len());
        assert forall|k: int| 0 <= k < nv.len() implies names@[k]@ == #[trigger] nv[k] by {
            if k == 0 {
                assert(names@[0]@ == "reactiveValue"@);
            } else if k == 1 {
                assert(names@[1]@ == "getElmRefs"@);
            } else if k == 2 {
                assert(names@[2]@ == "addEvListener"@);
            } else if k == 3 {
                assert(names@[3]@ == "genUpdateFunc"@);
            } else if k == 4 {
                assert(names@[4]@ == "escapeHtml"@);
            } else if k == 5 {
                assert(names@[5]@ == "replaceInnerText"@);
            } else if k == 6 {
                assert(names@[6]@ == "replaceText"@);
            } else if k == 7 {
                assert(names@[7]@ == "replaceAttr"@);
            } else if k == 8 {
                assert(names@[8]@ == "insertEmpty"@);
            } else {
                assert(names@[9]@ == "insertContent"@);
            }
        }
    }
    let mut out: Vec<String> = Vec::new();
    let mut k: usize = 0;
    proof {
        assert(nv.take(0) =~= Seq::<Seq<char>>::empty());
        assert(out.deep_view() =~= spec_filter_contains(code@, nv.take(0)));
    }
    while k < names.len()
        invariant
            0 <= k <= names@.len(),
            names@.len() == nv.len(),
            forall|p: int| 0 <= p < nv.len() ==> names@[p]@ == #[trigger] nv[p],
            out.deep_view() == spec_filter_contains(code@, nv.take(k as int)),
        decreases names@.len() - k,
    {
        let ghost prev = out.deep_view();
        if contains_sub(code, names[k]) {
            out.push(String::from_str(names[k]));
            proof {
                assert(out.deep_view() =~= prev.push(nv[k as int]));
            }
        }
        k = k + 1;
        proof {
            assert(nv.take(k as int).drop_last() =~= nv.take(k as int - 1));
            assert(nv.take(k as int).last() == nv[k as int - 1]);
            assert(out.deep_view() =~= spec_filter_contains(code@, nv.take(k as int)));
        }
    }
    proof {
        assert(nv.take(nv.len() as int) =~= nv);
    }
    out
}

/// The whole emitted module: the import of every runtime primitive the body
/// uses, then the compiled function bound to a mount element, exported by
/// default or bound to a local constant.
pub open spec fn spec_gen_full_code(
    codes: Seq<Seq<char>>,
    no_export: bool,
    runtime_path: Seq<char>,
) -> Seq<char> {
    let code = spec_join(codes.map(|i: int, c: Seq<char>| spec_create_indent(c)), "\n"@);
    "import { "@ + spec_join(spec_import_list(code), ", "@) + " } from '"@ + runtime_path
        + "'\n\n"@ + (if no_export {
        "const App = "@
    } else {
        "export default "@
    }) + "function(elm) {\n    const refs = [null, false, 0, 0, 0];\n"@ + code + "\n}"@
}

/// Wraps the ordered statement sequence into one module: import list,
/// register declaration, and the compiled function.
pub fn gen_full_code(codes: &Vec<String>, no_export: bool, runtime_path: &String) -> (r: String)
    ensures
        r@ == spec_gen_full_code(codes.deep_view(), no_export, runtime_path@),
{
    let ghost cv = codes.deep_view();
    let ghost mapped = cv.map(|i: int, c: Seq<char>| spec_create_indent(c));
    let mut indented: Vec<String> = Vec::new();
    let mut p: usize = 0;
    proof {
        assert(indented.deep_view() =~= mapped.take(0));
    }
    while p < codes.len()
        invariant
            0 <= p <= codes@.len(),
            cv == codes.deep_view(),
            mapped == cv.map(|i: int, c: Seq<char>| spec_create_indent(c)),
            mapped.len() == codes@.len(),
            indented.deep_view() == mapped.take(p as int),
        decreases codes@.len() - p,
    {
        let line = create_indent(codes[p].as_str());
        let ghost lv = line@;
        let ghost prev = indented.deep_view();
        indented.push(line);
        p = p + 1;
        proof {
            assert(indented.deep_view() =~= prev.push(lv));
            assert(lv == spec_create_indent(codes@[p as int - 1]@));
            assert(indented.deep_view() =~= mapped.take(p as int));
        }
    }
    proof {
        assert(mapped.take(mapped.len() as int) =~= mapped);
    }
    let code = join_strings(&indented, "\n");
    let imports = import_list(code.as_str());
    let imports_joined = join_strings(&imports, ", ");
    let mut r = String::from_str("import { ");
    r.append(imports_joined.as_str());
    r.append(" } from '");
    r.append(runtime_path.as_str());
    r.append("'\n\n");
    if no_export {
        r.append("const App = ");
    } else {
        r.append("export default ");
    }
    r.append("function(elm) {\n    const refs = [null, false, 0, 0, 0];\n");
    r.append(code.as_str());
    r.append("\n}");
    proof {
        assert(r@ =~= spec_gen_full_code(cv, no_export, runtime_path@));
    }
    r
}

/// A name list with one more name, kept only if not already present.
pub open spec fn spec_add_unique(acc: Seq<Seq<char>>, x: Seq<char>) -> Seq<Seq<char>> {
    if acc.contains(x) {
        acc
    } else {
        acc.push(x)
    }
}

/// The declaration names a block contributes: its own id, then the node id
/// of every reference captured in the block's own context, from entry `k`
/// on.
pub open spec fn spec_decl_ids_for_block(
    blk_ctx: Seq<Seq<char>>,
    needed: Seq<NeededIdNameV>,
    k: int,
    acc: Seq<Seq<char>>,
) -> Seq<Seq<char>>
    decreases needed.len() - k,
{
    if k < 0 || k >= needed.len() {
        acc
    } else {
        spec_decl_ids_for_block(
            blk_ctx,
            needed,
            k + 1,
            if needed[k].ctx == blk_ctx {
                spec_add_unique(acc, needed[k].node_id)
            } else {
                acc
            },
        )
    }
}

/// The names whose references the module must declare up front: every
/// conditional block's id and every reference captured inside a block, in
/// first-use order, without duplicates.
pub open spec fn spec_vars_to_declare(
    blocks: Seq<IfBlockInfoV>,
    needed: Seq<NeededIdNameV>,
    b: int,
    acc: Seq<Seq<char>>,
) -> Seq<Seq<char>>
    decreases blocks.len() - b,
{
    if b < 0 || b >= blocks.len() {
        acc
    } else {
        spec_vars_to_declare(
            blocks,
            needed,
            b + 1,
            spec_decl_ids_for_block(
                blocks[b].ctx.push(blocks[b].if_block_id),
                needed,
                0,
                spec_add_unique(acc, blocks[b].if_block_id),
            ),
        )
    }
}

fn vars_to_declare(if_blocks_info: &Vec<IfBlockInfo>, needed_ids: &Vec<NeededIdName>) -> (r: Vec<
    String,
>)
    ensures
        r.deep_view() == spec_vars_to_declare(
            if_blocks_info.deep_view(),
            needed_ids.deep_view(),
            0,
            Seq::empty(),
        ),
{
    let ghost bv = if_blocks_info.deep_view();
    let ghost nv = needed_ids.deep_view();
    let ghost target = spec_vars_to_declare(bv, nv, 0, Seq::empty());
    let mut acc: Vec<String> = Vec::new();
    let mut b: usize = 0;
    proof {
        assert(acc.deep_view() =~= Seq::<Seq<char>>::empty());
    }
    while b < if_blocks_info.len()
        invariant
            0 <= b <= if_blocks_info@.len(),
            bv == if_blocks_info.deep_view(),
            nv == needed_ids.deep_view(),
            bv.len() == if_blocks_info@.len(),
            nv.len() == needed_ids@.len(),
            target == spec_vars_to_declare(bv, nv, b as int, acc.deep_view()),
        decreases if_blocks_info@.len() - b,
    {
        let blk = &if_blocks_info[b];
        let ghost acc0 = acc.deep_view();
        if !contains_string(&acc, blk.if_block_id.as_str()) {
            let ghost prev = acc.deep_view();
            acc.push(blk.if_block_id.clone());
            proof {
                assert(acc.deep_view() =~= prev.push(bv[b as int].if_block_id));
            }
        }
        proof {
            assert(bv[b as int] == if_blocks_info@[b as int]@);
            assert(acc.deep_view() =~= spec_add_unique(acc0, bv[b as int].if_block_id));
        }
        let mut ctx2 = clone_string_vec(&blk.ctx);
        ctx2.push(blk.if_block_id.clone());
        proof {
            assert(ctx2.deep_view() =~= bv[b as int].ctx.push(bv[b as int].if_block_id));
        }
        let mut k: usize = 0;
        while k < needed_ids.len()
            invariant
                0 <= k <= needed_ids@.len(),
                b < if_blocks_info@.len(),
                bv == if_blocks_info.deep_view(),
                nv == needed_ids.deep_view(),
                bv.len() == if_blocks_info@.len(),
                nv.len() == needed_ids@.len(),
                ctx2.deep_view() == bv[b as int].ctx.push(bv[b as int].if_block_id),
                target == spec_vars_to_declare(bv, nv, b as int + 1, spec_decl_ids_for_block(
                    ctx2.deep_view(),
                    nv,
                    k as int,
                    acc.deep_view(),
                )),
            decreases needed_ids@.len() - k,
        {
            let ghost acc1 = acc.deep_view();
            if vec_string_eq(&needed_ids[k].ctx, &ctx2) {
                if !contains_string(&acc, needed_ids[k].node_id.as_str()) {
                    let ghost prev = acc.deep_view();
                    acc.push(needed_ids[k].node_id.clone());
                    proof {
                        assert(acc.deep_view() =~= prev.push(nv[k as int].node_id));
                    }
                }
                proof {
                    assert(nv[k as int] == needed_ids@[k as int]@);
                    assert(acc.deep_view() =~= spec_add_unique(acc1, nv[k as int].node_id));
                }
            }
            k = k + 1;
            proof {
                assert(nv[k as int - 1] == needed_ids@[k as int - 1]@);
            }
        }
        b = b + 1;
    }
    proof {
        assert(target == acc.deep_view());
    }
    acc
}

/// One structured template unit, as the parsing collaborator hands it over:
/// the markup tree, the embedded script's structured form and raw text, and
/// the optional stylesheet passed through unchanged.
pub struct TemplateUnit {
    pub dom: Node,
    pub script_ast: ScriptValue,
    pub script_text: String,
    pub css: Option<String>,
}

/// The ghost form of a template unit.
#[verifier::ext_equal]
pub struct TemplateUnitV {
    pub dom: NodeV,
    pub script_ast: ScriptValueV,
    pub script_text: Seq<char>,
    pub css: Option<Seq<char>>,
}

impl View for TemplateUnit {
    type V = TemplateUnitV;

    open spec fn view(&self) -> TemplateUnitV {
        TemplateUnitV {
            dom: self.dom@,
            script_ast: sval_view(self.script_ast),
            script_text: self.script_text@,
            css: match self.css {
                Some(ref s) => Some(s@),
                None => None,
            },
        }
    }
}

/// The transformer state a compilation run starts from.
pub open spec fn spec_initial_state() -> TransformStateV {
    TransformStateV {
        needed_ids: Seq::empty(),
        elm_and_var_relation: Seq::empty(),
        actions_and_targets: Seq::empty(),
        if_blocks_info: Seq::empty(),
        text_node_renderer: Seq::empty(),
        id_counter: 0,
    }
}

/// The whole pipeline on one template unit: analyze the script, transform
/// the markup, sort the side tables, and emit the module text. More than 32
/// conditional blocks or captured references overflow the 32-bit registers
/// and are a hard error.
pub open spec fn spec_generate_js(
    t: TemplateUnitV,
    no_export: Option<bool>,
    runtime_path: Option<Seq<char>>,
) -> Result<(Seq<char>, Option<Seq<char>>), CompileErrorV> {
    let ne = match no_export {
        Some(b) => b,
        None => false,
    };
    let rp = match runtime_path {
        Some(r) => r,
        None => "blve/dist/runtime"@,
    };
    match spec_analyze_js(t.script_ast, t.script_text) {
        Err(e) => Err(e),
        Ok((vars_list, names, js_output)) => match spec_check_node(
            names,
            t.dom,
            None,
            Seq::empty(),
            seq![0usize],
            1,
            spec_initial_state(),
        ) {
            Err(e) => Err(e),
            Ok((new_node, st, _ms)) => {
                if st.if_blocks_info.len() > 32 || st.needed_ids.len() > 32 {
                    Err(CompileErrorV::RegisterOverflow)
                } else {
                    let blocks = spec_insertion_sort(
                        st.if_blocks_info,
                        |a: IfBlockInfoV, b: IfBlockInfoV| spec_if_block_le(a, b),
                    );
                    let rels = spec_insertion_sort(
                        st.elm_and_var_relation,
                        |a: ElmAndReactiveInfoV, b: ElmAndReactiveInfoV| spec_reactive_info_le(
                            a,
                            b,
                        ),
                    );
                    let html_insert = "elm.innerHTML = `"@ + spec_node_str(new_node) + "`;"@;
                    let renderers = spec_insertion_sort(
                        spec_renderer_group(blocks, st.text_node_renderer),
                        |a: TextNodeRendererV, b: TextNodeRendererV| spec_renderer_le(a, b),
                    );
                    let anchors = spec_anchor_stmts(renderers, Seq::empty());
                    let ref_getter = spec_gen_ref_getter(st.needed_ids);
                    let listeners = spec_event_listeners(st.actions_and_targets);
                    let decls = spec_vars_to_declare(blocks, st.needed_ids, 0, Seq::empty());
                    let decl_code: Seq<Seq<char>> = if blocks.len() > 0 && decls.len() != 0 {
                        seq![
                            "let "@ + spec_join(
                                decls.map(|i: int, v: Seq<char>| v + "Ref"@),
                                ", "@,
                            ) + ";"@,
                        ]
                    } else {
                        Seq::empty()
                    };
                    let codes = seq![js_output, html_insert, ref_getter] + decl_code + anchors
                        + listeners + spec_gen_render_if(blocks, st.needed_ids, 0) + seq![
                        "refs[4] = 0"@,
                    ] + seq![spec_gen_update_func(rels, vars_list, blocks)];
                    Ok((spec_gen_full_code(codes, ne, rp), t.css))
                }
            },
        },
    }
}

/// Compiles one template unit into the module text and the pass-through
/// stylesheet: script analysis, markup transformation, the global sorts
/// that fix emission order, and code generation.
#[verifier::rlimit(100)]
pub fn generate_js_from_blocks(
    blocks: &TemplateUnit,
    no_export: Option<bool>,
    runtime_path: Option<String>,
) -> (r: Result<(String, Option<String>), CompileError>)
    ensures
        ({
            let s = spec_generate_js(blocks@, no_export, match runtime_path {
                Some(ref p) => Some(p@),
                None => None,
            });
            match r {
                Ok((js, css)) => s == Ok::<_, CompileErrorV>(
                    (
                        js@,
                        match css {
                            Some(ref c) => Some(c@),
                            None => None::<Seq<char>>,
                        },
                    ),
                ),
                Err(e) => s is Err && e@ == s->Err_0,
            }
        }),
{
    let ghost tv = blocks@;
    let ghost rpo: Option<Seq<char>> = match runtime_path {
        Some(ref p) => Some(p@),
        None => None,
    };
    let no_export_flag = match no_export {
        Some(b) => b,
        None => false,
    };
    let rp = match runtime_path {
        Some(p) => p,
        None => String::from_str("blve/dist/runtime"),
    };
    let (variables, variable_names, js_output) = match analyze_js(
        &blocks.script_ast,
        &blocks.script_text,
    ) {
        Err(e) => {
            return Err(e);
        },
        Ok(t) => t,
    };
    let new_node = blocks.dom.clone_node();
    let state = TransformState::new();
    let empty_ctx: Vec<String> = Vec::new();
    let mut root_loc: Vec<usize> = Vec::new();
    root_loc.push(0);
    proof {
        assert(state@ =~= spec_initial_state());
        assert(empty_ctx.deep_view() =~= Seq::<Seq<char>>::empty());
        assert(root_loc@ =~= seq![0usize]);
    }
    let (new_node, st, _ms) = match check_html_elms(
        &variable_names,
        new_node,
        state,
        None,
        &empty_ctx,
        &root_loc,
        1,
    ) {
        Err(e) => {
            return Err(e);
        },
        Ok(t) => t,
    };
    let mut st = st;
    if st.if_blocks_info.len() > 32 || st.needed_ids.len() > 32 {
        return Err(CompileError::RegisterOverflow);
    }
    let ghost pre_blocks = st.if_blocks_info.deep_view();
    let ghost pre_rels = st.elm_and_var_relation.deep_view();
    sort_if_blocks(&mut st.if_blocks_info);
    sort_elm_and_reactive_info(&mut st.elm_and_var_relation);
    proof {
        crate::sorting::lemma_insertion_sort_len(
            pre_blocks,
            |a: IfBlockInfoV, b: IfBlockInfoV| spec_if_block_le(a, b),
        );
        crate::sorting::lemma_insertion_sort_len(
            pre_rels,
            |a: ElmAndReactiveInfoV, b: ElmAndReactiveInfoV| spec_reactive_info_le(a, b),
        );
        assert(st.if_blocks_info@.len() == st.if_blocks_info.deep_view().len());
    }
    let html_str = new_node.to_html_string();
    let mut html_insert = String::from_str("elm.innerHTML = `");
    html_insert.append(html_str.as_str());
    html_insert.append("`;");
    let mut txt_node_renderer = TextNodeRendererGroup::new(
        &st.if_blocks_info,
        &st.text_node_renderer,
    );
    let create_anchor_statements = gen_create_anchor_statements(&mut txt_node_renderer, &empty_ctx);
    let ref_getter_expression = gen_ref_getter_from_needed_ids(&st.needed_ids);
    let event_listener_codes = create_event_listener(&st.actions_and_targets);
    let mut codes: Vec<String> = Vec::new();
    codes.push(js_output);
    codes.push(html_insert);
    codes.push(ref_getter_expression);
    let decls = vars_to_declare(&st.if_blocks_info, &st.needed_ids);
    let ghost decl_code: Seq<Seq<char>> = if st.if_blocks_info@.len() > 0 && decls@.len() != 0 {
        seq![
            "let "@ + spec_join(
                decls.deep_view().map(|i: int, v: Seq<char>| v + "Ref"@),
                ", "@,
            ) + ";"@,
        ]
    } else {
        Seq::empty()
    };
    if st.if_blocks_info.len() > 0 && decls.len() != 0 {
        let ghost dv = decls.deep_view();
        let ghost mapped = dv.map(|i: int, v: Seq<char>| v + "Ref"@);
        let mut with_ref: Vec<String> = Vec::new();
        let mut q: usize = 0;
        proof {
            assert(with_ref.deep_view() =~= mapped.take(0));
        }
        while q < decls.len()
            invariant
                0 <= q <= decls@.len(),
                dv == decls.deep_view(),
                mapped == dv.map(|i: int, v: Seq<char>| v + "Ref"@),
                mapped.len() == decls@.len(),
                with_ref.deep_view() == mapped.take(q as int),
            decreases decls@.len() - q,
        {
            let mut nm = decls[q].clone();
            nm.append("Ref");
            let ghost nmv = nm@;
            let ghost prev = with_ref.deep_view();
            with_ref.push(nm);
            q = q + 1;
            proof {
                assert(with_ref.deep_view() =~= prev.push(nmv));
                assert(nmv == dv[q as int - 1] + "Ref"@);
                assert(with_ref.deep_view() =~= mapped.take(q as int));
            }
        }
        proof {
            assert(mapped.take(mapped.len() as int) =~= mapped);
        }
        let joined = join_strings(&with_ref, ", ");
        let mut decl_stmt = String::from_str("let ");
        decl_stmt.append(joined.as_str());
        decl_stmt.append(";");
        let ghost dsv = decl_stmt@;
        codes.push(decl_stmt);
        proof {
            assert(decl_code =~= seq![dsv]);
        }
    }
    let mut create_anchor_statements = create_anchor_statements;
    let ghost codes_before_anchors = codes.deep_view();
    let ghost anchors_v = create_anchor_statements.deep_view();
    codes.append(&mut create_anchor_statements);
    proof {
        assert(codes.deep_view() =~= codes_before_anchors + anchors_v);
    }
    let mut event_listener_codes = event_listener_codes;
    let ghost codes_before_listeners = codes.deep_view();
    let ghost listeners_v = event_listener_codes.deep_view();
    codes.append(&mut event_listener_codes);
    proof {
        assert(codes.deep_view() =~= codes_before_listeners + listeners_v);
    }
    let mut render_if = gen_render_if_statements(&st.if_blocks_info, &st.needed_ids);
    let ghost codes_before_render = codes.deep_view();
    let ghost render_v = render_if.deep_view();
    codes.append(&mut render_if);
    proof {
        assert(codes.deep_view() =~= codes_before_render + render_v);
    }
    codes.push(String::from_str("refs[4] = 0"));
    let update_func_code = gen_update_func_statement(
        &st.elm_and_var_relation,
        &variables,
        &st.if_blocks_info,
    );
    codes.push(update_func_code);
    let full_code = gen_full_code(&codes, no_export_flag, &rp);
    let css_code = match &blocks.css {
        Some(c) => Some(c.clone()),
        None => None,
    };
    proof {
        let s = spec_generate_js(tv, no_export, rpo);
        assert(s is Ok);
        assert(codes.deep_view() =~= ({
            let st_spec = spec_check_node(
                variable_names.deep_view(),
                tv.dom,
                None,
                Seq::empty(),
                seq![0usize],
                1,
                spec_initial_state(),
            )->Ok_0.1;
            let blocks_s = spec_insertion_sort(
                st_spec.if_blocks_info,
                |a: IfBlockInfoV, b: IfBlockInfoV| spec_if_block_le(a, b),
            );
            let rels_s = spec_insertion_sort(
                st_spec.elm_and_var_relation,
                |a: ElmAndReactiveInfoV, b: ElmAndReactiveInfoV| spec_reactive_info_le(a, b),
            );
            let renderers = spec_insertion_sort(
                spec_renderer_group(blocks_s, st_spec.text_node_renderer),
                |a: TextNodeRendererV, b: TextNodeRendererV| spec_renderer_le(a, b),
            );
            let decls_s = spec_vars_to_declare(blocks_s, st_spec.needed_ids, 0, Seq::empty());
            let decl_code_s: Seq<Seq<char>> = if blocks_s.len() > 0 && decls_s.len() != 0 {
                seq![
                    "let "@ + spec_join(
                        decls_s.map(|i: int, v: Seq<char>| v + "Ref"@),
                        ", "@,
                    ) + ";"@,
                ]
            } else {
                Seq::empty()
            };
            seq![
                spec_analyze_js(tv.script_ast, tv.script_text)->Ok_0.2,
                "elm.innerHTML = `"@ + spec_node_str(
                    spec_check_node(
                        variable_names.deep_view(),
                        tv.dom,
                        None,
                        Seq::empty(),
                        seq![0usize],
                        1,
                        spec_initial_state(),
                    )->Ok_0.0,
                ) + "`;"@,
                spec_gen_ref_getter(st_spec.needed_ids),
            ] + decl_code_s + spec_anchor_stmts(renderers, Seq::empty()) + spec_event_listeners(
                st_spec.actions_and_targets,
            ) + spec_gen_render_if(blocks_s, st_spec.needed_ids, 0) + seq!["refs[4] = 0"@] + seq![
                spec_gen_update_func(rels_s, spec_analyze_js(
                    tv.script_ast,
                    tv.script_text,
                )->Ok_0.0, blocks_s),
            ]
        }));
    }
    Ok((full_code, css_code))
}

} // verus!
