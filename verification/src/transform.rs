//! The markup transformer: a depth-first walk that classifies attributes,
//! extracts event, two-way, attribute and content bindings, detaches
//! conditional sub-trees, allocates stable element identifiers, and fills
//! the side tables the code generators read. Tree edits requested while a
//! parent's children are visited are collected as manipulation records,
//! sorted by source position, and applied in one pass per parent.

use crate::info::{
    ActionAndTarget, ActionAndTargetV, CompileError, CompileErrorV, EventBindingStatement,
    EventBindingStatementV, EventTarget, EventTargetV, IfBlockInfo, IfBlockInfoV,
    ManualRendererForTextNode, ManualRendererForTextNodeV, NeededIdName, NeededIdNameV,
    spec_event_target_new,
};
use crate::markup::{
    attr_get, attr_remove, attr_upsert, attrs_view, clone_attrs, spec_attr_get, spec_attr_remove,
    spec_attr_upsert, spec_child_index, spec_next_elm_index, AttrV, Element, ElementV,
    lemma_child_index_bounds, lemma_next_elm_index_bounds, lemma_nodes_view, opt_str_view, Node, NodeContent,
    NodeContentV, NodeV, node_view, nodes_view,
};
use crate::rewrite::{
    append_v_to_vars, replace_text_with_reactive_value, spec_append_v_text, spec_append_v_used,
    spec_replace_text,
};
use crate::sorting::{
    lemma_insert_sorted_at, loc_le, spec_insert_sorted, spec_insertion_sort, spec_loc_le,
};
use crate::strutil::{
    clone_string_vec, clone_usize_vec, spec_dec, spec_word_is_one_word, str_eq, u64_to_string,
    word_is_one_word,
};
use crate::targets::{
    ElmAndReactiveAttributeRelation, ElmAndReactiveAttributeRelationV, ElmAndReactiveInfo,
    ElmAndReactiveInfoV, ElmAndVariableContentRelation, ElmAndVariableContentRelationV,
    ReactiveAttr, ReactiveAttrV, TextAndVariableContentRelation, TextAndVariableContentRelationV,
};
use vstd::prelude::*;
use vstd::string::StrSliceExecFns;
use vstd::string::StringExecFns;

verus! {

broadcast use {vstd::std_specs::vec::group_vec_axioms, vstd::seq::group_seq_axioms};

/// A request to detach a conditional child and record its block.
pub struct RemoveChildForIfStatement {
    pub child_uuid: String,
    pub condition: String,
    pub block_id: String,
    pub ctx: Vec<String>,
    pub elm_loc: Vec<usize>,
}

/// The ghost form of a conditional-detach request.
#[verifier::ext_equal]
pub struct RemoveChildForIfStatementV {
    pub child_uuid: Seq<char>,
    pub condition: Seq<char>,
    pub block_id: Seq<char>,
    pub ctx: Seq<Seq<char>>,
    pub elm_loc: Seq<usize>,
}

impl View for RemoveChildForIfStatement {
    type V = RemoveChildForIfStatementV;

    open spec fn view(&self) -> RemoveChildForIfStatementV {
        RemoveChildForIfStatementV {
            child_uuid: self.child_uuid@,
            condition: self.condition@,
            block_id: self.block_id@,
            ctx: self.ctx.deep_view(),
            elm_loc: self.elm_loc@,
        }
    }
}

/// A request to mark a parent as the owner of reactive text content.
pub struct SetIdToParentForChildReactiveText {
    pub text: String,
    pub dependent_vars: Vec<String>,
    pub ctx: Vec<String>,
    pub elm_loc: Vec<usize>,
}

/// The ghost form of a reactive-content request.
#[verifier::ext_equal]
pub struct SetIdToParentForChildReactiveTextV {
    pub text: Seq<char>,
    pub dependent_vars: Seq<Seq<char>>,
    pub ctx: Seq<Seq<char>>,
    pub elm_loc: Seq<usize>,
}

impl View for SetIdToParentForChildReactiveText {
    type V = SetIdToParentForChildReactiveTextV;

    open spec fn view(&self) -> SetIdToParentForChildReactiveTextV {
        SetIdToParentForChildReactiveTextV {
            text: self.text@,
            dependent_vars: self.dependent_vars.deep_view(),
            ctx: self.ctx.deep_view(),
            elm_loc: self.elm_loc@,
        }
    }
}

/// A request to excise a reactive text node that has siblings.
pub struct RemoveChildTextNode {
    pub child_uuid: String,
    pub content: String,
    pub dependent_vars: Vec<String>,
    pub ctx: Vec<String>,
    pub elm_loc: Vec<usize>,
}

/// The ghost form of a text-excision request.
#[verifier::ext_equal]
pub struct RemoveChildTextNodeV {
    pub child_uuid: Seq<char>,
    pub content: Seq<char>,
    pub dependent_vars: Seq<Seq<char>>,
    pub ctx: Seq<Seq<char>>,
    pub elm_loc: Seq<usize>,
}

impl View for RemoveChildTextNode {
    type V = RemoveChildTextNodeV;

    open spec fn view(&self) -> RemoveChildTextNodeV {
        RemoveChildTextNodeV {
            child_uuid: self.child_uuid@,
            content: self.content@,
            dependent_vars: self.dependent_vars.deep_view(),
            ctx: self.ctx.deep_view(),
            elm_loc: self.elm_loc@,
        }
    }
}

/// One pending tree edit.
pub enum HtmlManipulation {
    RemoveChildForIfStatement(RemoveChildForIfStatement),
    SetIdForReactiveContent(SetIdToParentForChildReactiveText),
    RemoveChildTextNode(RemoveChildTextNode),
}

/// The ghost form of a pending tree edit.
#[verifier::ext_equal]
pub enum HtmlManipulationV {
    RemoveChildForIfStatement(RemoveChildForIfStatementV),
    SetIdForReactiveContent(SetIdToParentForChildReactiveTextV),
    RemoveChildTextNode(RemoveChildTextNodeV),
}

impl View for HtmlManipulation {
    type V = HtmlManipulationV;

    open spec fn view(&self) -> HtmlManipulationV {
        match self {
            HtmlManipulation::RemoveChildForIfStatement(
                m,
            ) => HtmlManipulationV::RemoveChildForIfStatement(m@),
            HtmlManipulation::SetIdForReactiveContent(
                m,
            ) => HtmlManipulationV::SetIdForReactiveContent(m@),
            HtmlManipulation::RemoveChildTextNode(m) => HtmlManipulationV::RemoveChildTextNode(m@),
        }
    }
}

/// A pending tree edit addressed to the parent that must apply it.
pub struct HtmlManipulator {
    pub target_uuid: String,
    pub manipulations: HtmlManipulation,
}

/// The ghost form of an addressed tree edit.
#[verifier::ext_equal]
pub struct HtmlManipulatorV {
    pub target_uuid: Seq<char>,
    pub manipulations: HtmlManipulationV,
}

impl View for HtmlManipulator {
    type V = HtmlManipulatorV;

    open spec fn view(&self) -> HtmlManipulatorV {
        HtmlManipulatorV { target_uuid: self.target_uuid@, manipulations: self.manipulations@ }
    }
}

impl DeepView for HtmlManipulator {
    type V = HtmlManipulatorV;

    open spec fn deep_view(&self) -> HtmlManipulatorV {
        self.view()
    }
}

/// The source position a pending edit is keyed by.
pub open spec fn spec_manip_loc(m: HtmlManipulatorV) -> Seq<usize> {
    match m.manipulations {
        HtmlManipulationV::RemoveChildForIfStatement(x) => x.elm_loc,
        HtmlManipulationV::SetIdForReactiveContent(x) => x.elm_loc,
        HtmlManipulationV::RemoveChildTextNode(x) => x.elm_loc,
    }
}

/// The order of two pending edits: by source position.
pub open spec fn spec_manip_le(a: HtmlManipulatorV, b: HtmlManipulatorV) -> bool {
    spec_loc_le(spec_manip_loc(a), spec_manip_loc(b))
}

/// The source position a pending edit is keyed by.
pub fn manip_loc(m: &HtmlManipulator) -> (r: &Vec<usize>)
    ensures
        r@ == spec_manip_loc(m@),
{
    match &m.manipulations {
        HtmlManipulation::RemoveChildForIfStatement(x) => &x.elm_loc,
        HtmlManipulation::SetIdForReactiveContent(x) => &x.elm_loc,
        HtmlManipulation::RemoveChildTextNode(x) => &x.elm_loc,
    }
}

/// Sorts the pending edits by source position, stably, so that each parent
/// applies them in document order whatever the traversal produced.
pub fn sort_manipulations(v: &mut Vec<HtmlManipulator>)
    ensures
        final (v).deep_view() == spec_insertion_sort(
            old(v).deep_view(),
            |a: HtmlManipulatorV, b: HtmlManipulatorV| spec_manip_le(a, b),
        ),
{
    let ghost le = |a: HtmlManipulatorV, b: HtmlManipulatorV| spec_manip_le(a, b);
    let ghost orig = v.deep_view();
    let mut out: Vec<HtmlManipulator> = Vec::new();
    let ghost i: int = 0;
    proof {
        assert(orig.take(0) =~= Seq::<HtmlManipulatorV>::empty());
        assert(v.deep_view() =~= orig.skip(0));
    }
    while v.len() > 0
        invariant
            0 <= i <= orig.len(),
            v.deep_view() == orig.skip(i),
            v@.len() == orig.len() - i,
            out.deep_view() == spec_insertion_sort(orig.take(i), le),
            le == (|a: HtmlManipulatorV, b: HtmlManipulatorV| spec_manip_le(a, b)),
        decreases v@.len(),
    {
        let ghost prev = v.deep_view();
        let ghost prevv = v@;
        let x = v.remove(0);
        proof {
            assert(x == prevv[0]);
            assert(x@ == prev[0]);
            assert(x@ == orig.skip(i)[0]);
            assert(x@ == orig[i]);
            assert forall|k: int| 0 <= k < v@.len() implies #[trigger] v.deep_view()[k] == orig.skip(
                i + 1,
            )[k] by {
                assert(v@[k] == prevv.remove(0)[k]);
                assert(v@[k] == prevv[k + 1]);
                assert(v.deep_view()[k] == prev[k + 1]);
                assert(prev[k + 1] == orig.skip(i)[k + 1]);
                assert(orig.skip(i)[k + 1] == orig.skip(i + 1)[k]);
            }
            assert(v.deep_view() =~= orig.skip(i + 1));
        }
        let ghost sorted = out.deep_view();
        let mut j: usize = out.len();
        while j > 0 && !loc_le(manip_loc(&out[j - 1]), manip_loc(&x))
            invariant
                0 <= j <= out@.len(),
                out.deep_view() == sorted,
                x@ == orig[i],
                forall|k: int| j <= k < sorted.len() ==> !le(#[trigger] sorted[k], x@),
                le == (|a: HtmlManipulatorV, b: HtmlManipulatorV| spec_manip_le(a, b)),
            decreases j,
        {
            j = j - 1;
            proof {
                assert(sorted[j as int] == out@[j as int]@);
                assert(!le(sorted[j as int], x@));
            }
        }
        proof {
            if j > 0 {
                assert(sorted[j as int - 1] == out@[j as int - 1]@);
                assert(le(sorted[j as int - 1], x@));
            }
            lemma_insert_sorted_at(x@, sorted, le, j as int);
        }
        out.insert(j, x);
        proof {
            assert(out.deep_view() =~= sorted.subrange(0, j as int) + seq![orig[i]]
                + sorted.subrange(j as int, sorted.len() as int));
            assert(out.deep_view() == spec_insert_sorted(orig[i], sorted, le));
            assert(orig.take(i + 1).drop_last() =~= orig.take(i));
            assert(orig.take(i + 1).last() == orig[i]);
        }
        proof {
            i = i + 1;
        }
    }
    proof {
        assert(orig.take(orig.len() as int) =~= orig);
    }
    *v = out;
}

/// Everything the transformer accumulates while walking the tree, plus the
/// synthetic-id generator owned by this compilation run.
pub struct TransformState {
    pub needed_ids: Vec<NeededIdName>,
    pub elm_and_var_relation: Vec<ElmAndReactiveInfo>,
    pub actions_and_targets: Vec<ActionAndTarget>,
    pub if_blocks_info: Vec<IfBlockInfo>,
    pub text_node_renderer: Vec<ManualRendererForTextNode>,
    pub id_counter: u64,
}

/// The ghost form of the transformer state.
#[verifier::ext_equal]
pub struct TransformStateV {
    pub needed_ids: Seq<NeededIdNameV>,
    pub elm_and_var_relation: Seq<ElmAndReactiveInfoV>,
    pub actions_and_targets: Seq<ActionAndTargetV>,
    pub if_blocks_info: Seq<IfBlockInfoV>,
    pub text_node_renderer: Seq<ManualRendererForTextNodeV>,
    pub id_counter: nat,
}

impl View for TransformState {
    type V = TransformStateV;

    open spec fn view(&self) -> TransformStateV {
        TransformStateV {
            needed_ids: self.needed_ids.deep_view(),
            elm_and_var_relation: self.elm_and_var_relation.deep_view(),
            actions_and_targets: self.actions_and_targets.deep_view(),
            if_blocks_info: self.if_blocks_info.deep_view(),
            text_node_renderer: self.text_node_renderer.deep_view(),
            id_counter: self.id_counter as nat,
        }
    }
}

impl TransformState {
    /// A fresh state with no collected records and the id generator at its
    /// start: each compilation run gets its own.
    pub fn new() -> (r: TransformState)
        ensures
            r@.needed_ids == Seq::<NeededIdNameV>::empty(),
            r@.elm_and_var_relation == Seq::<ElmAndReactiveInfoV>::empty(),
            r@.actions_and_targets == Seq::<ActionAndTargetV>::empty(),
            r@.if_blocks_info == Seq::<IfBlockInfoV>::empty(),
            r@.text_node_renderer == Seq::<ManualRendererForTextNodeV>::empty(),
            r@.id_counter == 0,
    {
        let r = TransformState {
            needed_ids: Vec::new(),
            elm_and_var_relation: Vec::new(),
            actions_and_targets: Vec::new(),
            if_blocks_info: Vec::new(),
            text_node_renderer: Vec::new(),
            id_counter: 0,
        };
        proof {
            assert(r@.needed_ids =~= Seq::<NeededIdNameV>::empty());
            assert(r@.elm_and_var_relation =~= Seq::<ElmAndReactiveInfoV>::empty());
            assert(r@.actions_and_targets =~= Seq::<ActionAndTargetV>::empty());
            assert(r@.if_blocks_info =~= Seq::<IfBlockInfoV>::empty());
            assert(r@.text_node_renderer =~= Seq::<ManualRendererForTextNodeV>::empty());
        }
        r
    }
}

/// The synthetic id minted for one generator value.
pub open spec fn spec_synthetic_id(n: nat) -> Seq<char> {
    "blv"@ + spec_dec(n)
}

/// Whether some captured-reference entry already uses the id.
pub open spec fn spec_has_id_name(needed: Seq<NeededIdNameV>, id: Seq<char>) -> bool {
    exists|k: int| 0 <= k < needed.len() && (#[trigger] needed[k]).id_name == id
}

/// The first synthetic id not yet used by any entry, tried from the
/// generator's value on, together with the generator value after it; `None`
/// when the attempts run out or the generator is spent.
pub open spec fn spec_fresh_id(needed: Seq<NeededIdNameV>, counter: nat, attempts: nat) -> Option<
    (Seq<char>, nat),
>
    decreases attempts,
{
    if attempts == 0 || counter >= 0xffff_ffff_ffff_ffff {
        None
    } else if !spec_has_id_name(needed, spec_synthetic_id(counter)) {
        Some((spec_synthetic_id(counter), counter + 1))
    } else {
        spec_fresh_id(needed, counter + 1, (attempts - 1) as nat)
    }
}

/// What giving an element a captured reference does: an author-supplied id
/// is reused (coalescing duplicate requests for the same id); otherwise a
/// fresh synthetic id is minted, recorded for deletion after capture, and
/// inserted as the element's id attribute.
pub open spec fn spec_set_id(
    attrs: Seq<AttrV>,
    needed: Seq<NeededIdNameV>,
    counter: nat,
    node_uuid: Seq<char>,
    ctx: Seq<Seq<char>>,
) -> Result<(Seq<AttrV>, Seq<NeededIdNameV>, nat, Seq<char>), CompileErrorV> {
    match spec_attr_get(attrs, "id"@) {
        Some(Some(idv)) => if spec_has_id_name(needed, idv) {
            Ok((attrs, needed, counter, idv))
        } else {
            Ok(
                (
                    attrs,
                    needed.push(
                        NeededIdNameV {
                            id_name: idv,
                            to_delete: false,
                            node_id: node_uuid,
                            ctx: ctx,
                        },
                    ),
                    counter,
                    idv,
                ),
            )
        },
        _ => match spec_fresh_id(needed, counter, needed.len() + 1) {
            None => Err(CompileErrorV::IdSpaceExhausted),
            Some((id, c2)) => Ok(
                (
                    spec_attr_upsert(attrs, "id"@, Some(id)),
                    needed.push(
                        NeededIdNameV { id_name: id, to_delete: true, node_id: node_uuid, ctx: ctx },
                    ),
                    c2,
                    id,
                ),
            ),
        },
    }
}

/// The first reactive-attribute relation already recorded for the element,
/// or -1.
pub open spec fn spec_find_attr_rel(rels: Seq<ElmAndReactiveInfoV>, elm_id: Seq<char>) -> int
    decreases rels.len(),
{
    if rels.len() == 0 {
        -1
    } else if (match rels[0] {
        ElmAndReactiveInfoV::ElmAndReactiveAttributeRelation(r) => r.elm_id == elm_id,
        _ => false,
    }) {
        0
    } else {
        let r = spec_find_attr_rel(rels.drop_first(), elm_id);
        if r < 0 {
            -1
        } else {
            r + 1
        }
    }
}

/// A relation list with one reactive attribute added: appended to the
/// element's existing relation when one exists, else in a new relation
/// carrying the element's context and position.
pub open spec fn spec_add_rel_seq(
    rels: Seq<ElmAndReactiveInfoV>,
    uuid: Seq<char>,
    ctx: Seq<Seq<char>>,
    loc: Seq<usize>,
    ra: ReactiveAttrV,
) -> Seq<ElmAndReactiveInfoV> {
    let i = spec_find_attr_rel(rels, uuid);
    if i < 0 {
        rels.push(
            ElmAndReactiveInfoV::ElmAndReactiveAttributeRelation(
                ElmAndReactiveAttributeRelationV {
                    elm_id: uuid,
                    reactive_attr: seq![ra],
                    ctx: ctx,
                    elm_loc: loc,
                },
            ),
        )
    } else {
        let old_rel = (match rels[i] {
            ElmAndReactiveInfoV::ElmAndReactiveAttributeRelation(r) => r,
            _ => arbitrary(),
        });
        rels.update(
            i,
            ElmAndReactiveInfoV::ElmAndReactiveAttributeRelation(
                ElmAndReactiveAttributeRelationV {
                    reactive_attr: old_rel.reactive_attr.push(ra),
                    ..old_rel
                },
            ),
        )
    }
}

/// The state with one reactive attribute added.
pub open spec fn spec_add_reactive_attr(
    st: TransformStateV,
    uuid: Seq<char>,
    ctx: Seq<Seq<char>>,
    loc: Seq<usize>,
    ra: ReactiveAttrV,
) -> TransformStateV {
    TransformStateV {
        elm_and_var_relation: spec_add_rel_seq(st.elm_and_var_relation, uuid, ctx, loc, ra),
        ..st
    }
}

/// What classifying the attributes of one element does, from attribute `k`
/// of the element's own list on: `cur` is the evolving attribute list, `ctx` the
/// evolving context (a conditional attribute pushes the element's own id for
/// everything after it and below). Yields the final attributes, the final
/// context, the grown state, and the edits requested of the parent.
pub open spec fn spec_process_attrs(
    vars: Seq<Seq<char>>,
    orig: Seq<AttrV>,
    k: int,
    cur: Seq<AttrV>,
    uuid: Seq<char>,
    parent: Option<Seq<char>>,
    ctx: Seq<Seq<char>>,
    loc: Seq<usize>,
    st: TransformStateV,
) -> Result<
    (Seq<AttrV>, Seq<Seq<char>>, TransformStateV, Seq<HtmlManipulatorV>),
    CompileErrorV,
>
    decreases orig.len() - k,
{
    if k < 0 || k >= orig.len() {
        Ok((cur, ctx, st, Seq::empty()))
    } else {
        let (key, val) = orig[k];
        if key.len() > 0 && key[0] == '@' {
            match spec_set_id(cur, st.needed_ids, st.id_counter, uuid, ctx) {
                Err(e) => Err(e),
                Ok((cur2, needed2, c2, _id)) => {
                    let st2 = TransformStateV { needed_ids: needed2, id_counter: c2, ..st };
                    let st3 = match val {
                        Some(v) => TransformStateV {
                            actions_and_targets: st2.actions_and_targets.push(
                                ActionAndTargetV {
                                    action_name: key.skip(1),
                                    action: spec_event_target_new(v, vars),
                                    target: uuid,
                                },
                            ),
                            ..st2
                        },
                        None => st2,
                    };
                    spec_process_attrs(
                        vars,
                        orig,
                        k + 1,
                        spec_attr_remove(cur2, key),
                        uuid,
                        parent,
                        ctx,
                        loc,
                        st3,
                    )
                },
            }
        } else if key == ":if"@ {
            match val {
                None => Err(CompileErrorV::MissingCondition),
                Some(cond) => match parent {
                    None => Err(CompileErrorV::BindingAtRoot),
                    Some(p) => {
                        let manip = HtmlManipulatorV {
                            target_uuid: p,
                            manipulations: HtmlManipulationV::RemoveChildForIfStatement(
                                RemoveChildForIfStatementV {
                                    child_uuid: uuid,
                                    condition: cond,
                                    block_id: uuid,
                                    ctx: ctx,
                                    elm_loc: loc,
                                },
                            ),
                        };
                        match spec_process_attrs(
                            vars,
                            orig,
                            k + 1,
                            spec_attr_remove(cur, key),
                            uuid,
                            parent,
                            ctx.push(uuid),
                            loc,
                            st,
                        ) {
                            Err(e) => Err(e),
                            Ok((a2, cx2, st2, ms)) => Ok((a2, cx2, st2, seq![manip] + ms)),
                        }
                    },
                },
            }
        } else if key.len() >= 2 && key[0] == ':' && key[1] == ':' {
            match spec_set_id(cur, st.needed_ids, st.id_counter, uuid, ctx) {
                Err(e) => Err(e),
                Ok((cur2, needed2, c2, _id)) => {
                    let st2 = TransformStateV { needed_ids: needed2, id_counter: c2, ..st };
                    match val {
                        None => spec_process_attrs(
                            vars,
                            orig,
                            k + 1,
                            spec_attr_remove(cur2, key),
                            uuid,
                            parent,
                            ctx,
                            loc,
                            st2,
                        ),
                        Some(v) => if !spec_word_is_one_word(v) {
                            Err(CompileErrorV::TwoWayTargetNotSimple(v))
                        } else {
                            let battr = key.skip(2);
                            let st3 = TransformStateV {
                                actions_and_targets: st2.actions_and_targets.push(
                                    ActionAndTargetV {
                                        action_name: "input"@,
                                        action: EventTargetV::EventBindingStatement(
                                            EventBindingStatementV {
                                                statement: v + ".v = event.target."@ + battr,
                                                arg: "e"@,
                                            },
                                        ),
                                        target: uuid,
                                    },
                                ),
                                elm_and_var_relation: st2.elm_and_var_relation.push(
                                    ElmAndReactiveInfoV::ElmAndReactiveAttributeRelation(
                                        ElmAndReactiveAttributeRelationV {
                                            elm_id: uuid,
                                            reactive_attr: seq![
                                                ReactiveAttrV {
                                                    attribute_key: battr,
                                                    content_of_attr: v + ".v"@,
                                                    variable_names: seq![v],
                                                },
                                            ],
                                            ctx: ctx,
                                            elm_loc: loc,
                                        },
                                    ),
                                ),
                                ..st2
                            };
                            spec_process_attrs(
                                vars,
                                orig,
                                k + 1,
                                spec_attr_remove(cur2, key),
                                uuid,
                                parent,
                                ctx,
                                loc,
                                st3,
                            )
                        },
                    }
                },
            }
        } else if key.len() >= 1 && key[0] == ':' {
            if key == ":innerHtml"@ || key == ":textContent"@ {
                Err(CompileErrorV::UnsupportedBinding(key))
            } else {
                match spec_set_id(cur, st.needed_ids, st.id_counter, uuid, ctx) {
                    Err(e) => Err(e),
                    Ok((cur2, needed2, c2, _id)) => {
                        let st2 = TransformStateV { needed_ids: needed2, id_counter: c2, ..st };
                        match val {
                            None => Err(CompileErrorV::MissingAttributeValue(key.skip(1))),
                            Some(v) => {
                                let rw = spec_append_v_text(v, vars);
                                let used = spec_append_v_used(v, vars);
                                let name = key.skip(1);
                                let cur3 = spec_attr_upsert(
                                    spec_attr_remove(cur2, key),
                                    name,
                                    Some("${"@ + rw + "}"@),
                                );
                                let st3 = spec_add_reactive_attr(
                                    st2,
                                    uuid,
                                    ctx,
                                    loc,
                                    ReactiveAttrV {
                                        attribute_key: name,
                                        content_of_attr: rw,
                                        variable_names: used,
                                    },
                                );
                                spec_process_attrs(
                                    vars,
                                    orig,
                                    k + 1,
                                    cur3,
                                    uuid,
                                    parent,
                                    ctx,
                                    loc,
                                    st3,
                                )
                            },
                        }
                    },
                }
            }
        } else {
            spec_process_attrs(vars, orig, k + 1, cur, uuid, parent, ctx, loc, st)
        }
    }
}

/// What detaching a child and fixing its insertion anchor does: the child
/// is removed; the next element sibling, when one exists, becomes the
/// anchor and gets a captured reference in the given context. Yields the
/// removed node, the new child list, the distance to the next element
/// sibling, the anchor id, and the grown reference table and generator.
pub open spec fn spec_remove_and_anchor(
    children: Seq<NodeV>,
    child_uuid: Seq<char>,
    needed: Seq<NeededIdNameV>,
    counter: nat,
    anchor_ctx: Seq<Seq<char>>,
) -> Result<
    Option<(NodeV, Seq<NodeV>, usize, Option<Seq<char>>, Seq<NeededIdNameV>, nat)>,
    CompileErrorV,
> {
    let i = spec_child_index(children, child_uuid);
    if i < 0 {
        Ok(None)
    } else {
        let removed = children[i];
        let newkids = children.subrange(0, i) + children.subrange(
            i + 1,
            children.len() as int,
        );
        let j = spec_next_elm_index(newkids, i);
        let distance: usize = if j >= 0 {
            (j + 1 - i) as usize
        } else {
            (children.len() - i) as usize
        };
        if j >= 0 {
            let a = newkids[j];
            match a.content {
                NodeContentV::Element(ae) => match spec_set_id(
                    ae.attributes,
                    needed,
                    counter,
                    a.uuid,
                    anchor_ctx,
                ) {
                    Err(e) => Err(e),
                    Ok((a2, n2, c2, _id)) => Ok(
                        Some(
                            (
                                removed,
                                newkids.update(
                                    j,
                                    NodeV {
                                        uuid: a.uuid,
                                        content: NodeContentV::Element(
                                            ElementV { attributes: a2, ..ae },
                                        ),
                                    },
                                ),
                                distance,
                                Some(a.uuid),
                                n2,
                                c2,
                            ),
                        ),
                    ),
                },
                _ => Ok(Some((removed, newkids, distance, Some(a.uuid), needed, counter))),
            }
        } else {
            Ok(Some((removed, newkids, distance, None, needed, counter)))
        }
    }
}

/// What one conditional-detach edit does to an element and the state.
pub open spec fn spec_apply_if(
    vars: Seq<Seq<char>>,
    rm: RemoveChildForIfStatementV,
    uuid: Seq<char>,
    el: ElementV,
    parent_ctx: Seq<Seq<char>>,
    st: TransformStateV,
) -> Result<(ElementV, TransformStateV), CompileErrorV> {
    match spec_set_id(el.attributes, st.needed_ids, st.id_counter, uuid, rm.ctx) {
        Err(e) => Err(e),
        Ok((a2, n2, c2, _id)) => {
            let el2 = ElementV { attributes: a2, ..el };
            match spec_remove_and_anchor(el2.children, rm.child_uuid, n2, c2, parent_ctx) {
                Err(e) => Err(e),
                Ok(None) => Ok(
                    (el2, TransformStateV { needed_ids: n2, id_counter: c2, ..st }),
                ),
                Ok(Some((removed, newkids, distance, anchor, n3, c3))) => {
                    let blk = IfBlockInfoV {
                        if_block_id: rm.block_id,
                        parent_id: uuid,
                        target_if_blk_id: rm.child_uuid,
                        distance_to_next_elm: distance,
                        target_anchor_id: anchor,
                        elm: removed,
                        condition: spec_append_v_text(rm.condition, vars),
                        condition_dep_vars: spec_append_v_used(rm.condition, vars),
                        ctx: rm.ctx,
                        element_location: rm.elm_loc,
                    };
                    Ok(
                        (
                            ElementV { children: newkids, ..el2 },
                            TransformStateV {
                                needed_ids: n3,
                                id_counter: c3,
                                if_blocks_info: st.if_blocks_info.push(blk),
                                ..st
                            },
                        ),
                    )
                },
            }
        },
    }
}

/// What one reactive-content mark does to an element and the state.
pub open spec fn spec_apply_set_id(
    si: SetIdToParentForChildReactiveTextV,
    uuid: Seq<char>,
    el: ElementV,
    st: TransformStateV,
) -> Result<(ElementV, TransformStateV), CompileErrorV> {
    match spec_set_id(el.attributes, st.needed_ids, st.id_counter, uuid, si.ctx) {
        Err(e) => Err(e),
        Ok((a2, n2, c2, _id)) => Ok(
            (
                ElementV { attributes: a2, ..el },
                TransformStateV {
                    needed_ids: n2,
                    id_counter: c2,
                    elm_and_var_relation: st.elm_and_var_relation.push(
                        ElmAndReactiveInfoV::ElmAndVariableRelation(
                            ElmAndVariableContentRelationV {
                                elm_id: uuid,
                                variable_names: si.dependent_vars,
                                content_of_element: si.text,
                                ctx: si.ctx,
                                elm_loc: si.elm_loc,
                            },
                        ),
                    ),
                    ..st
                },
            ),
        ),
    }
}

/// What one text-excision edit does to an element and the state.
pub open spec fn spec_apply_text(
    rt: RemoveChildTextNodeV,
    uuid: Seq<char>,
    el: ElementV,
    parent_ctx: Seq<Seq<char>>,
    st: TransformStateV,
) -> Result<(ElementV, TransformStateV), CompileErrorV> {
    match spec_set_id(el.attributes, st.needed_ids, st.id_counter, uuid, rt.ctx) {
        Err(e) => Err(e),
        Ok((a2, n2, c2, _id)) => {
            let el2 = ElementV { attributes: a2, ..el };
            match spec_remove_and_anchor(el2.children, rt.child_uuid, n2, c2, parent_ctx) {
                Err(e) => Err(e),
                Ok(None) => Ok(
                    (el2, TransformStateV { needed_ids: n2, id_counter: c2, ..st }),
                ),
                Ok(Some((_removed, newkids, distance, anchor, n3, c3))) => Ok(
                    (
                        ElementV { children: newkids, ..el2 },
                        TransformStateV {
                            needed_ids: n3,
                            id_counter: c3,
                            text_node_renderer: st.text_node_renderer.push(
                                ManualRendererForTextNodeV {
                                    parent_id: uuid,
                                    text_node_id: rt.child_uuid,
                                    distance_to_next_elm: distance,
                                    dep_vars: rt.dependent_vars,
                                    content: rt.content,
                                    ctx: rt.ctx,
                                    element_location: rt.elm_loc,
                                    target_anchor_id: anchor,
                                },
                            ),
                            elm_and_var_relation: st.elm_and_var_relation.push(
                                ElmAndReactiveInfoV::TextAndVariableContentRelation(
                                    TextAndVariableContentRelationV {
                                        text_node_id: rt.child_uuid,
                                        variable_names: rt.dependent_vars,
                                        content_of_element: rt.content,
                                        ctx: rt.ctx,
                                        elm_loc: rt.elm_loc,
                                    },
                                ),
                            ),
                            ..st
                        },
                    ),
                ),
            }
        },
    }
}

/// What applying the sorted pending edits to one element does, in order:
/// a conditional detach records its if-block, a reactive-content mark
/// records an element-content relation, and a text excision records a
/// manual renderer and a text-content relation; each first ensures the
/// parent carries a captured reference in the edit's context. An edit whose
/// recorded child is no longer present is passed over.
pub open spec fn spec_apply_manips(
    vars: Seq<Seq<char>>,
    manips: Seq<HtmlManipulatorV>,
    uuid: Seq<char>,
    el: ElementV,
    parent_ctx: Seq<Seq<char>>,
    st: TransformStateV,
) -> Result<(ElementV, TransformStateV), CompileErrorV>
    decreases manips.len(),
{
    if manips.len() == 0 {
        Ok((el, st))
    } else {
        let mp = manips[0];
        let rest = manips.drop_first();
        if mp.target_uuid != uuid {
            spec_apply_manips(vars, rest, uuid, el, parent_ctx, st)
        } else {
            let step = (match mp.manipulations {
                HtmlManipulationV::RemoveChildForIfStatement(rm) => spec_apply_if(
                    vars,
                    rm,
                    uuid,
                    el,
                    parent_ctx,
                    st,
                ),
                HtmlManipulationV::SetIdForReactiveContent(si) => spec_apply_set_id(
                    si,
                    uuid,
                    el,
                    st,
                ),
                HtmlManipulationV::RemoveChildTextNode(rt) => spec_apply_text(
                    rt,
                    uuid,
                    el,
                    parent_ctx,
                    st,
                ),
            });
            match step {
                Err(e) => Err(e),
                Ok((el2, st2)) => spec_apply_manips(vars, rest, uuid, el2, parent_ctx, st2),
            }
        }
    }
}

/// What transforming one node does: a comment passes through; a text node
/// has its interpolations rewritten and, when they read reactive variables,
/// requests of its parent either a reactive-content mark (no siblings) or
/// its own excision (siblings present); an element classifies its
/// attributes, transforms its children, and applies the children's edits in
/// source order. Yields the transformed node, the grown state, and the
/// edits requested of this node's own parent.
pub open spec fn spec_check_node(
    vars: Seq<Seq<char>>,
    node: NodeV,
    parent: Option<Seq<char>>,
    ctx: Seq<Seq<char>>,
    loc: Seq<usize>,
    count_of_siblings: nat,
    st: TransformStateV,
) -> Result<(NodeV, TransformStateV, Seq<HtmlManipulatorV>), CompileErrorV>
    decreases node,
{
    match node.content {
        NodeContentV::Comment(_) => Ok((node, st, Seq::empty())),
        NodeContentV::TextNode(t) => {
            let rep = spec_replace_text(t, vars, 0);
            let new_node = NodeV { uuid: node.uuid, content: NodeContentV::TextNode(rep.0) };
            if rep.1.len() > 0 {
                match parent {
                    None => Err(CompileErrorV::BindingAtRoot),
                    Some(p) => {
                        let manip = if count_of_siblings <= 1 {
                            HtmlManipulatorV {
                                target_uuid: p,
                                manipulations: HtmlManipulationV::SetIdForReactiveContent(
                                    SetIdToParentForChildReactiveTextV {
                                        text: rep.0,
                                        dependent_vars: rep.1,
                                        ctx: ctx,
                                        elm_loc: loc,
                                    },
                                ),
                            }
                        } else {
                            HtmlManipulatorV {
                                target_uuid: p,
                                manipulations: HtmlManipulationV::RemoveChildTextNode(
                                    RemoveChildTextNodeV {
                                        child_uuid: node.uuid,
                                        content: rep.0,
                                        dependent_vars: rep.1,
                                        ctx: ctx,
                                        elm_loc: loc,
                                    },
                                ),
                            }
                        };
                        Ok((new_node, st, seq![manip]))
                    },
                }
            } else {
                Ok((new_node, st, Seq::empty()))
            }
        },
        NodeContentV::Element(el) => {
            match spec_process_attrs(
                vars,
                el.attributes,
                0,
                el.attributes,
                node.uuid,
                parent,
                ctx,
                loc,
                st,
            ) {
                Err(e) => Err(e),
                Ok((attrs2, ctx2, st2, my_manips)) => {
                    match spec_check_children(
                        vars,
                        el.children,
                        0,
                        node.uuid,
                        ctx2,
                        loc,
                        el.children.len(),
                        st2,
                    ) {
                        Err(e) => Err(e),
                        Ok((kids2, st3, child_manips)) => {
                            let sorted = spec_insertion_sort(
                                child_manips,
                                |a: HtmlManipulatorV, b: HtmlManipulatorV| spec_manip_le(a, b),
                            );
                            match spec_apply_manips(
                                vars,
                                sorted,
                                node.uuid,
                                ElementV { name: el.name, attributes: attrs2, children: kids2 },
                                ctx,
                                st3,
                            ) {
                                Err(e) => Err(e),
                                Ok((el3, st4)) => Ok(
                                    (
                                        NodeV {
                                            uuid: node.uuid,
                                            content: NodeContentV::Element(el3),
                                        },
                                        st4,
                                        my_manips,
                                    ),
                                ),
                            }
                        },
                    }
                },
            }
        },
    }
}

/// What transforming a child list does, left to right, `idx` being the
/// position of the list's first node among its siblings.
pub open spec fn spec_check_children(
    vars: Seq<Seq<char>>,
    kids: Seq<NodeV>,
    idx: nat,
    parent_uuid: Seq<char>,
    ctx: Seq<Seq<char>>,
    loc: Seq<usize>,
    count_of_siblings: nat,
    st: TransformStateV,
) -> Result<(Seq<NodeV>, TransformStateV, Seq<HtmlManipulatorV>), CompileErrorV>
    decreases kids,
{
    if kids.len() == 0 {
        Ok((Seq::empty(), st, Seq::empty()))
    } else {
        match spec_check_node(
            vars,
            kids[0],
            Some(parent_uuid),
            ctx,
            loc.push(idx as usize),
            count_of_siblings,
            st,
        ) {
            Err(e) => Err(e),
            Ok((n2, st2, ms)) => match spec_check_children(
                vars,
                kids.drop_first(),
                idx + 1,
                parent_uuid,
                ctx,
                loc,
                count_of_siblings,
                st2,
            ) {
                Err(e) => Err(e),
                Ok((rest_kids, st3, ms2)) => Ok((seq![n2] + rest_kids, st3, ms + ms2)),
            },
        }
    }
}

/// Whether some captured-reference entry already uses the id.
fn has_id_name(needed: &Vec<NeededIdName>, id: &str) -> (r: bool)
    ensures
        r == spec_has_id_name(needed.deep_view(), id@),
{
    let mut k: usize = 0;
    while k < needed.len()
        invariant
            0 <= k <= needed@.len(),
            forall|p: int| 0 <= p < k ==> (#[trigger] needed.deep_view()[p]).id_name != id@,
        decreases needed@.len() - k,
    {
        if str_eq(needed[k].id_name.as_str(), id) {
            proof {
                assert(needed.deep_view()[k as int].id_name == id@);
            }
            return true;
        }
        k = k + 1;
    }
    proof {
        if spec_has_id_name(needed.deep_view(), id@) {
            let p = choose|p: int|
                0 <= p < needed.deep_view().len() && (#[trigger] needed.deep_view()[p]).id_name
                    == id@;
            assert(needed.deep_view()[p].id_name != id@);
        }
    }
    false
}

fn synthetic_id(n: u64) -> (r: String)
    ensures
        r@ == spec_synthetic_id(n as nat),
{
    let mut r = String::from_str("blv");
    let d = u64_to_string(n);
    r.append(d.as_str());
    r
}

/// Ensures the element carries an id that a runtime reference can be
/// captured by, recording the request. An author-supplied id is reused and
/// kept; a synthesized id is inserted as the `id` attribute and flagged for
/// removal after capture.
pub fn set_id_for_needed_elm(
    element: &mut Element,
    needed_ids: &mut Vec<NeededIdName>,
    id_counter: &mut u64,
    node_id: &String,
    ctx: &Vec<String>,
) -> (r: Result<String, CompileError>)
    ensures
        ({
            let s = spec_set_id(
                attrs_view(old(element).attributes@),
                old(needed_ids).deep_view(),
                *old(id_counter) as nat,
                node_id@,
                ctx.deep_view(),
            );
            match r {
                Ok(id) => s is Ok && {
                    let (a2, n2, c2, idv) = s->Ok_0;
                    &&& attrs_view(final (element).attributes@) == a2
                    &&& final (needed_ids).deep_view() == n2
                    &&& *final (id_counter) as nat == c2
                    &&& id@ == idv
                    &&& final (element).name == old(element).name
                    &&& final (element).children == old(element).children
                },
                Err(e) => s is Err && e@ == s->Err_0,
            }
        }),
{
    set_id_attrs(&mut element.attributes, needed_ids, id_counter, node_id, ctx)
}

/// Ensures an attribute list carries an id that a runtime reference can be
/// captured by, recording the request.
pub fn set_id_attrs(
    attributes: &mut Vec<(String, Option<String>)>,
    needed_ids: &mut Vec<NeededIdName>,
    id_counter: &mut u64,
    node_id: &String,
    ctx: &Vec<String>,
) -> (r: Result<String, CompileError>)
    ensures
        ({
            let s = spec_set_id(
                attrs_view(old(attributes)@),
                old(needed_ids).deep_view(),
                *old(id_counter) as nat,
                node_id@,
                ctx.deep_view(),
            );
            match r {
                Ok(id) => s is Ok && {
                    let (a2, n2, c2, idv) = s->Ok_0;
                    &&& attrs_view(final (attributes)@) == a2
                    &&& final (needed_ids).deep_view() == n2
                    &&& *final (id_counter) as nat == c2
                    &&& id@ == idv
                },
                Err(e) => s is Err && e@ == s->Err_0,
            }
        }),
{
    let ghost a0 = attrs_view(attributes@);
    let ghost n0 = needed_ids.deep_view();
    let ghost c0 = *id_counter as nat;
    match attr_get(attributes, "id") {
        Some(Some(idv)) => {
            if has_id_name(needed_ids, idv.as_str()) {
                Ok(idv)
            } else {
                let entry = NeededIdName {
                    id_name: idv.clone(),
                    to_delete: false,
                    node_id: node_id.clone(),
                    ctx: clone_string_vec(ctx),
                };
                let ghost ev = entry@;
                needed_ids.push(entry);
                proof {
                    assert(needed_ids.deep_view() =~= n0.push(ev));
                    assert(ev =~= (NeededIdNameV {
                        id_name: idv@,
                        to_delete: false,
                        node_id: node_id@,
                        ctx: ctx.deep_view(),
                    }));
                }
                Ok(idv)
            }
        },
        _ => {
            let mut cand: u64 = *id_counter;
            let mut tries_left: usize = needed_ids.len();
            let mut found: bool = false;
            loop
                invariant_except_break
                    n0 == needed_ids.deep_view(),
                    !found,
                    spec_fresh_id(n0, c0, n0.len() + 1) == spec_fresh_id(
                        n0,
                        cand as nat,
                        tries_left as nat + 1,
                    ),
                invariant
                    n0 == needed_ids.deep_view(),
                ensures
                    found ==> spec_fresh_id(n0, c0, n0.len() + 1) == Some((
                        spec_synthetic_id(cand as nat),
                        cand as nat + 1,
                    )) && cand < u64::MAX,
                    !found ==> spec_fresh_id(n0, c0, n0.len() + 1) is None,
                decreases tries_left,
            {
                if cand == u64::MAX {
                    proof {
                        assert(spec_fresh_id(n0, cand as nat, tries_left as nat + 1) is None);
                    }
                    break ;
                }
                let candidate = synthetic_id(cand);
                if !has_id_name(needed_ids, candidate.as_str()) {
                    found = true;
                    proof {
                        assert(spec_fresh_id(n0, cand as nat, tries_left as nat + 1) == Some((
                            spec_synthetic_id(cand as nat),
                            cand as nat + 1,
                        )));
                    }
                    break ;
                }
                if tries_left == 0 {
                    proof {
                        assert(spec_fresh_id(n0, cand as nat + 1, 0) is None);
                        assert(spec_fresh_id(n0, cand as nat, tries_left as nat + 1) is None);
                    }
                    break ;
                }
                cand = cand + 1;
                tries_left = tries_left - 1;
            }
            if !found {
                return Err(CompileError::IdSpaceExhausted);
            }
            let new_id = synthetic_id(cand);
            attr_upsert(attributes, "id", Some(new_id.clone()));
            let entry = NeededIdName {
                id_name: new_id.clone(),
                to_delete: true,
                node_id: node_id.clone(),
                ctx: clone_string_vec(ctx),
            };
            let ghost ev = entry@;
            needed_ids.push(entry);
            *id_counter = cand + 1;
            proof {
                assert(needed_ids.deep_view() =~= n0.push(ev));
                assert(ev =~= (NeededIdNameV {
                    id_name: spec_synthetic_id(cand as nat),
                    to_delete: true,
                    node_id: node_id@,
                    ctx: ctx.deep_view(),
                }));
            }
            Ok(new_id)
        },
    }
}

pub proof fn lemma_find_attr_rel_bounds(rels: Seq<ElmAndReactiveInfoV>, elm_id: Seq<char>)
    ensures
        spec_find_attr_rel(rels, elm_id) == -1 || (0 <= spec_find_attr_rel(rels, elm_id)
            < rels.len() && (match rels[spec_find_attr_rel(rels, elm_id)] {
            ElmAndReactiveInfoV::ElmAndReactiveAttributeRelation(r) => r.elm_id == elm_id,
            _ => false,
        })),
        spec_find_attr_rel(rels, elm_id) == -1 ==> forall|k: int|
            0 <= k < rels.len() ==> !(match #[trigger] rels[k] {
                ElmAndReactiveInfoV::ElmAndReactiveAttributeRelation(r) => r.elm_id == elm_id,
                _ => false,
            }),
        spec_find_attr_rel(rels, elm_id) >= 0 ==> forall|k: int|
            0 <= k < spec_find_attr_rel(rels, elm_id) ==> !(match #[trigger] rels[k] {
                ElmAndReactiveInfoV::ElmAndReactiveAttributeRelation(r) => r.elm_id == elm_id,
                _ => false,
            }),
    decreases rels.len(),
{
    if rels.len() > 0 && !(match rels[0] {
        ElmAndReactiveInfoV::ElmAndReactiveAttributeRelation(r) => r.elm_id == elm_id,
        _ => false,
    }) {
        lemma_find_attr_rel_bounds(rels.drop_first(), elm_id);
        assert forall|k: int| 1 <= k < rels.len() implies rels.drop_first()[k - 1] == (
        #[trigger] rels[k]) by {}
    }
}

/// Records one reactive attribute for an element, aggregating with the
/// element's existing relation when there is one.
pub fn add_reactive_attr(
    rels: &mut Vec<ElmAndReactiveInfo>,
    uuid: &String,
    ctx: &Vec<String>,
    loc: &Vec<usize>,
    ra: ReactiveAttr,
)
    ensures
        final (rels).deep_view() == spec_add_rel_seq(
            old(rels).deep_view(),
            uuid@,
            ctx.deep_view(),
            loc@,
            ra@,
        ),
{
    let ghost r0 = rels.deep_view();
    let ghost rav = ra@;
    let mut k: usize = 0;
    let mut found = false;
    loop
        invariant_except_break
            0 <= k <= rels@.len(),
            rels.deep_view() == r0,
            !found,
            forall|p: int|
                0 <= p < k ==> !(match #[trigger] r0[p] {
                    ElmAndReactiveInfoV::ElmAndReactiveAttributeRelation(r) => r.elm_id == uuid@,
                    _ => false,
                }),
        invariant
            rels.deep_view() == r0,
            k <= rels@.len(),
        ensures
            found ==> (k < rels@.len() && (match r0[k as int] {
                ElmAndReactiveInfoV::ElmAndReactiveAttributeRelation(r) => r.elm_id == uuid@,
                _ => false,
            })),
            found ==> forall|p: int|
                0 <= p < k ==> !(match #[trigger] r0[p] {
                    ElmAndReactiveInfoV::ElmAndReactiveAttributeRelation(r) => r.elm_id == uuid@,
                    _ => false,
                }),
            !found ==> forall|p: int|
                0 <= p < rels@.len() ==> !(match #[trigger] r0[p] {
                    ElmAndReactiveInfoV::ElmAndReactiveAttributeRelation(r) => r.elm_id == uuid@,
                    _ => false,
                }),
        decreases rels@.len() - k,
    {
        if k >= rels.len() {
            break ;
        }
        let hit = match &rels[k] {
            ElmAndReactiveInfo::ElmAndReactiveAttributeRelation(r) => str_eq(
                r.elm_id.as_str(),
                uuid.as_str(),
            ),
            _ => false,
        };
        if hit {
            found = true;
            proof {
                assert(r0[k as int] == rels@[k as int]@);
            }
            break ;
        }
        proof {
            assert(r0[k as int] == rels@[k as int]@);
        }
        k = k + 1;
    }
    proof {
        lemma_find_attr_rel_bounds(r0, uuid@);
        if found {
            if spec_find_attr_rel(r0, uuid@) != k as int {
                if spec_find_attr_rel(r0, uuid@) == -1 || spec_find_attr_rel(r0, uuid@)
                    > k as int {
                    assert(!(match r0[k as int] {
                        ElmAndReactiveInfoV::ElmAndReactiveAttributeRelation(r) => r.elm_id
                            == uuid@,
                        _ => false,
                    }));
                } else {
                    assert(!(match r0[spec_find_attr_rel(r0, uuid@)] {
                        ElmAndReactiveInfoV::ElmAndReactiveAttributeRelation(r) => r.elm_id
                            == uuid@,
                        _ => false,
                    }));
                }
            }
            assert(spec_find_attr_rel(r0, uuid@) == k as int);
        } else {
            if spec_find_attr_rel(r0, uuid@) >= 0 {
                let idx = spec_find_attr_rel(r0, uuid@);
                assert(0 <= idx < rels@.len());
                let item = r0[idx];
                assert(!(match item {
                    ElmAndReactiveInfoV::ElmAndReactiveAttributeRelation(r) => r.elm_id == uuid@,
                    _ => false,
                }));
                assert(match item {
                    ElmAndReactiveInfoV::ElmAndReactiveAttributeRelation(r) => r.elm_id == uuid@,
                    _ => false,
                });
            }
            assert(spec_find_attr_rel(r0, uuid@) == -1);
        }
    }
    if found {
        let ghost prevv = rels@;
        let item = rels.remove(k);
        match item {
            ElmAndReactiveInfo::ElmAndReactiveAttributeRelation(r) => {
                let mut r = r;
                let ghost rv = r@;
                r.reactive_attr.push(ra);
                proof {
                    assert(r@.reactive_attr =~= rv.reactive_attr.push(rav));
                    assert(r@ =~= (ElmAndReactiveAttributeRelationV {
                        reactive_attr: rv.reactive_attr.push(rav),
                        ..rv
                    }));
                }
                let ghost newv = r@;
                rels.insert(k, ElmAndReactiveInfo::ElmAndReactiveAttributeRelation(r));
                proof {
                    assert forall|p: int| 0 <= p < rels@.len() implies #[trigger] rels.deep_view()[p]
                        == spec_add_rel_seq(r0, uuid@, ctx.deep_view(), loc@, rav)[p] by {
                        if p < k as int {
                            assert(rels@[p] == prevv.remove(k as int).insert(k as int, rels@[k as int])[p]);
                            assert(rels@[p] == prevv[p]);
                        } else if p == k as int {
                            assert(rels@[p]@ == ElmAndReactiveInfoV::ElmAndReactiveAttributeRelation(newv));
                        } else {
                            assert(rels@[p] == prevv[p]);
                        }
                    }
                    assert(rels.deep_view() =~= spec_add_rel_seq(
                        r0,
                        uuid@,
                        ctx.deep_view(),
                        loc@,
                        rav,
                    ));
                }
            },
            other => {
                rels.insert(k, other);
                proof {
                    assert(false);
                }
            },
        }
    } else {
        let rel = ElmAndReactiveInfo::ElmAndReactiveAttributeRelation(
            ElmAndReactiveAttributeRelation {
                elm_id: uuid.clone(),
                reactive_attr: {
                    let mut v: Vec<ReactiveAttr> = Vec::new();
                    v.push(ra);
                    v
                },
                ctx: clone_string_vec(ctx),
                elm_loc: clone_usize_vec(loc),
            },
        );
        let ghost relv = rel@;
        rels.push(rel);
        proof {
            assert(relv.arrow_ElmAndReactiveAttributeRelation_0().reactive_attr =~= seq![rav]);
            assert(relv =~= ElmAndReactiveInfoV::ElmAndReactiveAttributeRelation(
                ElmAndReactiveAttributeRelationV {
                    elm_id: uuid@,
                    reactive_attr: seq![rav],
                    ctx: ctx.deep_view(),
                    elm_loc: loc@,
                },
            ));
            assert(rels.deep_view() =~= r0.push(relv));
            assert(rels.deep_view() =~= spec_add_rel_seq(r0, uuid@, ctx.deep_view(), loc@, rav));
        }
    }
}

/// Detaches the named child and fixes its insertion anchor: the next
/// element sibling, when one exists, gets a captured reference in the
/// given context and becomes the anchor. Returns the removed node, the
/// distance to the next element sibling, and the anchor's stable id.
pub fn remove_and_anchor(
    el: &mut Element,
    child_uuid: &str,
    needed_ids: &mut Vec<NeededIdName>,
    id_counter: &mut u64,
    anchor_ctx: &Vec<String>,
) -> (r: Result<Option<(Node, usize, Option<String>)>, CompileError>)
    ensures
        ({
            let s = spec_remove_and_anchor(
                old(el)@.children,
                child_uuid@,
                old(needed_ids).deep_view(),
                *old(id_counter) as nat,
                anchor_ctx.deep_view(),
            );
            match r {
                Ok(None) => s == Ok::<
                    Option<(NodeV, Seq<NodeV>, usize, Option<Seq<char>>, Seq<NeededIdNameV>, nat)>,
                    CompileErrorV,
                >(None) && final (el)@ == old(el)@ && *final (needed_ids) == *old(needed_ids)
                    && *final (id_counter) == *old(id_counter),
                Ok(Some((node, distance, anchor))) => s is Ok && s->Ok_0 is Some && ({
                    let (removed, newkids, sdist, sanchor, n2, c2) = s->Ok_0->0;
                    &&& node@ == removed
                    &&& distance == sdist
                    &&& (match anchor {
                        Some(a) => sanchor == Some(a@),
                        None => sanchor is None,
                    })
                    &&& final (el)@.children == newkids
                    &&& final (el)@.name == old(el)@.name
                    &&& final (el)@.attributes == old(el)@.attributes
                    &&& final (needed_ids).deep_view() == n2
                    &&& *final (id_counter) as nat == c2
                }),
                Err(e) => s is Err && e@ == s->Err_0,
            }
        }),
{
    let ghost kids0 = el@.children;
    let ghost n0 = needed_ids.deep_view();
    let ghost c0 = *id_counter as nat;
    match el.remove_child(child_uuid) {
        None => {
            Ok(None)
        },
        Some((node, idx, distance, next)) => {
            let ghost newkids = el@.children;
            proof {
                lemma_child_index_bounds(kids0, child_uuid@);
                assert(0 <= idx < kids0.len());
                assert(newkids == kids0.subrange(0, idx as int) + kids0.subrange(
                    idx as int + 1,
                    kids0.len() as int,
                ));
                lemma_next_elm_index_bounds(newkids, idx as int);
            }
            match next {
                None => {
                    proof {
                        assert(spec_next_elm_index(newkids, idx as int) == -1);
                    }
                    Ok(Some((node, distance, None)))
                },
                Some(j) => {
                    proof {
                        assert(spec_next_elm_index(newkids, idx as int) == j as int);
                        assert(newkids[j as int].content is Element);
                        lemma_nodes_view(el.children@);
                        assert(newkids.len() == el.children@.len());
                    }
                    let ghost midkids = el.children@;
                    let mut anchor = el.children.remove(j);
                    proof {
                        lemma_nodes_view(midkids);
                        assert(anchor@ == newkids[j as int]);
                    }
                    let anchor_uuid = anchor.uuid.clone();
                    let ghost av = anchor@;
                    match &mut anchor.content {
                        NodeContent::Element(ae) => {
                            let ghost aev = (match av.content {
                                NodeContentV::Element(x) => x,
                                _ => arbitrary(),
                            });
                            match set_id_attrs(
                                &mut ae.attributes,
                                needed_ids,
                                id_counter,
                                &anchor_uuid,
                                anchor_ctx,
                            ) {
                                Err(e) => {
                                    return Err(e);
                                },
                                Ok(_) => {},
                            }
                            proof {
                                let s2 = spec_set_id(
                                    aev.attributes,
                                    n0,
                                    c0,
                                    av.uuid,
                                    anchor_ctx.deep_view(),
                                );
                                assert(s2 is Ok);
                                assert(anchor@ =~= (NodeV {
                                    uuid: av.uuid,
                                    content: NodeContentV::Element(
                                        ElementV { attributes: s2->Ok_0.0, ..aev },
                                    ),
                                }));
                            }
                        },
                        _ => {},
                    }
                    let ghost anchor_final = anchor@;
                    proof {
                        if !(av.content is Element) {
                            assert(anchor_final == av);
                        }
                    }
                    let ghost kids_before_insert = el.children@;
                    el.children.insert(j, anchor);
                    proof {
                        lemma_nodes_view(el.children@);
                        lemma_nodes_view(kids_before_insert);
                        lemma_nodes_view(midkids);
                        assert forall|p: int| 0 <= p < el.children@.len() implies #[trigger] el@.children[p]
                            == newkids.update(j as int, anchor_final)[p] by {
                            if p < j as int {
                                assert(el.children@[p] == kids_before_insert.insert(
                                    j as int,
                                    el.children@[j as int],
                                )[p]);
                                assert(el.children@[p] == midkids[p]);
                            } else if p == j as int {
                                assert(node_view(el.children@[p]) == anchor_final);
                            } else {
                                assert(el.children@[p] == midkids[p]);
                            }
                        }
                        assert(el@.children =~= newkids.update(j as int, anchor_final));
                        if !(av.content is Element) {
                            assert(newkids.update(j as int, anchor_final) =~= newkids);
                        }
                    }
                    Ok(Some((node, distance, Some(anchor_uuid))))
                },
            }
        },
    }
}

fn process_attrs(
    variable_names: &Vec<String>,
    orig: &Vec<(String, Option<String>)>,
    k: usize,
    cur: Vec<(String, Option<String>)>,
    uuid: &String,
    parent_uuid: Option<&String>,
    ctx: Vec<String>,
    loc: &Vec<usize>,
    st: TransformState,
) -> (r: Result<
    (Vec<(String, Option<String>)>, Vec<String>, TransformState, Vec<HtmlManipulator>),
    CompileError,
>)
    ensures
        ({
            let s = spec_process_attrs(
                variable_names.deep_view(),
                attrs_view(orig@),
                k as int,
                attrs_view(cur@),
                uuid@,
                (match parent_uuid {
                    Some(p) => Some(p@),
                    None => None::<Seq<char>>,
                }),
                ctx.deep_view(),
                loc@,
                st@,
            );
            match r {
                Ok((a2, c2, st2, ms)) => s == Ok::<_, CompileErrorV>(
                    (attrs_view(a2@), c2.deep_view(), st2@, ms.deep_view()),
                ),
                Err(e) => s is Err && e@ == s->Err_0,
            }
        }),
    decreases orig@.len() - k,
{
    let ghost vars = variable_names.deep_view();
    let ghost origv = attrs_view(orig@);
    let ghost cur0 = attrs_view(cur@);
    let ghost ctx0 = ctx.deep_view();
    let ghost st0 = st@;
    let ghost pv: Option<Seq<char>> = match parent_uuid {
        Some(p) => Some(p@),
        None => None,
    };
    if k >= orig.len() {
        let ms: Vec<HtmlManipulator> = Vec::new();
        proof {
            assert(ms.deep_view() =~= Seq::<HtmlManipulatorV>::empty());
        }
        return Ok((cur, ctx, st, ms));
    }
    let key = orig[k].0.as_str();
    let kn = key.unicode_len();
    proof {
        assert(origv[k as int] == (orig@[k as int].0@, opt_str_view(orig@[k as int].1)));
        assert(origv[k as int].0 == key@);
    }
    if kn > 0 && key.get_char(0) == '@' {
        let mut cur = cur;
        let mut st = st;
        match set_id_attrs(&mut cur, &mut st.needed_ids, &mut st.id_counter, uuid, &ctx) {
            Err(e) => {
                return Err(e);
            },
            Ok(_) => {},
        }
        let ghost sid = spec_set_id(cur0, st0.needed_ids, st0.id_counter, uuid@, ctx0);
        let ghost st2v = TransformStateV {
            needed_ids: sid->Ok_0.1,
            id_counter: sid->Ok_0.2,
            ..st0
        };
        proof {
            assert(st@ =~= st2v);
        }
        match &orig[k].1 {
            Some(v) => {
                let action = EventTarget::new(v.clone(), variable_names);
                let action_name = String::from_str(key.substring_char(1, kn));
                let ghost prev_actions = st.actions_and_targets.deep_view();
                let entry = ActionAndTarget { action_name, action, target: uuid.clone() };
                let ghost entv = entry@;
                st.actions_and_targets.push(entry);
                proof {
                    assert(key@.subrange(1, kn as int) =~= key@.skip(1));
                    assert(entv =~= (ActionAndTargetV {
                        action_name: key@.skip(1),
                        action: spec_event_target_new(origv[k as int].1->0, vars),
                        target: uuid@,
                    }));
                    assert(st.actions_and_targets.deep_view() =~= prev_actions.push(entv));
                    assert(st@ =~= (TransformStateV {
                        actions_and_targets: st2v.actions_and_targets.push(entv),
                        ..st2v
                    }));
                }
            },
            None => {},
        }
        attr_remove(&mut cur, key);
        let r = process_attrs(
            variable_names,
            orig,
            k + 1,
            cur,
            uuid,
            parent_uuid,
            ctx,
            loc,
            st,
        );
        return r;
    }
    if str_eq(key, ":if") {
        match &orig[k].1 {
            None => {
                proof {
                    assert(origv[k as int].1 is None);
                }
                return Err(CompileError::MissingCondition);
            },
            Some(v) => {
                match parent_uuid {
                    None => {
                        return Err(CompileError::BindingAtRoot);
                    },
                    Some(p) => {
                        let manip = HtmlManipulator {
                            target_uuid: p.clone(),
                            manipulations: HtmlManipulation::RemoveChildForIfStatement(
                                RemoveChildForIfStatement {
                                    child_uuid: uuid.clone(),
                                    condition: v.clone(),
                                    block_id: uuid.clone(),
                                    ctx: clone_string_vec(&ctx),
                                    elm_loc: clone_usize_vec(loc),
                                },
                            ),
                        };
                        let ghost mv = manip@;
                        proof {
                            assert(mv =~= (HtmlManipulatorV {
                                target_uuid: p@,
                                manipulations: HtmlManipulationV::RemoveChildForIfStatement(
                                    RemoveChildForIfStatementV {
                                        child_uuid: uuid@,
                                        condition: origv[k as int].1->0,
                                        block_id: uuid@,
                                        ctx: ctx0,
                                        elm_loc: loc@,
                                    },
                                ),
                            }));
                        }
                        let mut cur = cur;
                        attr_remove(&mut cur, key);
                        let mut ctx = ctx;
                        ctx.push(uuid.clone());
                        proof {
                            assert(ctx.deep_view() =~= ctx0.push(uuid@));
                        }
                        match process_attrs(
                            variable_names,
                            orig,
                            k + 1,
                            cur,
                            uuid,
                            parent_uuid,
                            ctx,
                            loc,
                            st,
                        ) {
                            Err(e) => {
                                return Err(e);
                            },
                            Ok((a2, c2, st2, ms2)) => {
                                let mut ms: Vec<HtmlManipulator> = Vec::new();
                                let ghost ms2v = ms2.deep_view();
                                ms.push(manip);
                                let mut ms2 = ms2;
                                ms.append(&mut ms2);
                                proof {
                                    assert(ms.deep_view() =~= seq![mv] + ms2v);
                                }
                                return Ok((a2, c2, st2, ms));
                            },
                        }
                    },
                }
            },
        }
    }
    if kn >= 2 && key.get_char(0) == ':' && key.get_char(1) == ':' {
        let mut cur = cur;
        let mut st = st;
        match set_id_attrs(&mut cur, &mut st.needed_ids, &mut st.id_counter, uuid, &ctx) {
            Err(e) => {
                return Err(e);
            },
            Ok(_) => {},
        }
        let ghost sid = spec_set_id(cur0, st0.needed_ids, st0.id_counter, uuid@, ctx0);
        let ghost st2v = TransformStateV {
            needed_ids: sid->Ok_0.1,
            id_counter: sid->Ok_0.2,
            ..st0
        };
        proof {
            assert(st@ =~= st2v);
        }
        match &orig[k].1 {
            None => {
                attr_remove(&mut cur, key);
                let r = process_attrs(
                    variable_names,
                    orig,
                    k + 1,
                    cur,
                    uuid,
                    parent_uuid,
                    ctx,
                    loc,
                    st,
                );
                return r;
            },
            Some(v) => {
                if !word_is_one_word(v.as_str()) {
                    return Err(CompileError::TwoWayTargetNotSimple(v.clone()));
                }
                let battr = String::from_str(key.substring_char(2, kn));
                proof {
                    assert(battr@ =~= key@.skip(2));
                }
                let mut stmt = v.clone();
                stmt.append(".v = event.target.");
                stmt.append(battr.as_str());
                let ghost prev_actions = st.actions_and_targets.deep_view();
                let action_entry = ActionAndTarget {
                    action_name: String::from_str("input"),
                    action: EventTarget::EventBindingStatement(
                        EventBindingStatement { statement: stmt, arg: String::from_str("e") },
                    ),
                    target: uuid.clone(),
                };
                let ghost av = action_entry@;
                st.actions_and_targets.push(action_entry);
                let mut ras: Vec<ReactiveAttr> = Vec::new();
                let mut cattr = v.clone();
                cattr.append(".v");
                let mut vnames: Vec<String> = Vec::new();
                vnames.push(v.clone());
                ras.push(
                    ReactiveAttr {
                        attribute_key: battr,
                        content_of_attr: cattr,
                        variable_names: vnames,
                    },
                );
                let ghost prev_rels = st.elm_and_var_relation.deep_view();
                let rel_entry = ElmAndReactiveInfo::ElmAndReactiveAttributeRelation(
                    ElmAndReactiveAttributeRelation {
                        elm_id: uuid.clone(),
                        reactive_attr: ras,
                        ctx: clone_string_vec(&ctx),
                        elm_loc: clone_usize_vec(loc),
                    },
                );
                let ghost rv = rel_entry@;
                st.elm_and_var_relation.push(rel_entry);
                proof {
                    let vv = origv[k as int].1->0;
                    assert(av.action->EventBindingStatement_0.statement =~= vv
                        + ".v = event.target."@ + key@.skip(2));
                    assert(av =~= (ActionAndTargetV {
                        action_name: "input"@,
                        action: EventTargetV::EventBindingStatement(
                            EventBindingStatementV {
                                statement: vv + ".v = event.target."@ + key@.skip(2),
                                arg: "e"@,
                            },
                        ),
                        target: uuid@,
                    }));
                    assert(rv->ElmAndReactiveAttributeRelation_0.reactive_attr =~~= seq![
                        ReactiveAttrV {
                            attribute_key: key@.skip(2),
                            content_of_attr: vv + ".v"@,
                            variable_names: seq![vv],
                        },
                    ]);
                    assert(rv =~~= ElmAndReactiveInfoV::ElmAndReactiveAttributeRelation(
                        ElmAndReactiveAttributeRelationV {
                            elm_id: uuid@,
                            reactive_attr: seq![
                                ReactiveAttrV {
                                    attribute_key: key@.skip(2),
                                    content_of_attr: vv + ".v"@,
                                    variable_names: seq![vv],
                                },
                            ],
                            ctx: ctx0,
                            elm_loc: loc@,
                        },
                    ));
                    assert(st.actions_and_targets.deep_view() =~= prev_actions.push(av));
                    assert(st.elm_and_var_relation.deep_view() =~= prev_rels.push(rv));
                    assert(st@ =~= (TransformStateV {
                        actions_and_targets: st2v.actions_and_targets.push(av),
                        elm_and_var_relation: st2v.elm_and_var_relation.push(rv),
                        ..st2v
                    }));
                }
                attr_remove(&mut cur, key);
                let r = process_attrs(
                    variable_names,
                    orig,
                    k + 1,
                    cur,
                    uuid,
                    parent_uuid,
                    ctx,
                    loc,
                    st,
                );
                return r;
            },
        }
    }
    if kn >= 1 && key.get_char(0) == ':' {
        if str_eq(key, ":innerHtml") || str_eq(key, ":textContent") {
            return Err(CompileError::UnsupportedBinding(orig[k].0.clone()));
        }
        let mut cur = cur;
        let mut st = st;
        match set_id_attrs(&mut cur, &mut st.needed_ids, &mut st.id_counter, uuid, &ctx) {
            Err(e) => {
                return Err(e);
            },
            Ok(_) => {},
        }
        let ghost sid = spec_set_id(cur0, st0.needed_ids, st0.id_counter, uuid@, ctx0);
        let ghost st2v = TransformStateV {
            needed_ids: sid->Ok_0.1,
            id_counter: sid->Ok_0.2,
            ..st0
        };
        proof {
            assert(st@ =~= st2v);
        }
        match &orig[k].1 {
            None => {
                return Err(
                    CompileError::MissingAttributeValue(
                        String::from_str(key.substring_char(1, kn)),
                    ),
                );
            },
            Some(v) => {
                let (rw, used) = append_v_to_vars(v.as_str(), variable_names);
                attr_remove(&mut cur, key);
                let name = key.substring_char(1, kn);
                proof {
                    assert(name@ =~= key@.skip(1));
                }
                let mut value = String::from_str("${");
                value.append(rw.as_str());
                value.append("}");
                proof {
                    assert(value@ =~= "${"@ + rw@ + "}"@);
                }
                attr_upsert(&mut cur, name, Some(value));
                let ra = ReactiveAttr {
                    attribute_key: String::from_str(name),
                    content_of_attr: rw,
                    variable_names: used,
                };
                let ghost rav = ra@;
                let ghost prev_rels = st.elm_and_var_relation.deep_view();
                add_reactive_attr(&mut st.elm_and_var_relation, uuid, &ctx, loc, ra);
                proof {
                    let vv = origv[k as int].1->0;
                    assert(rav =~= (ReactiveAttrV {
                        attribute_key: key@.skip(1),
                        content_of_attr: spec_append_v_text(vv, vars),
                        variable_names: spec_append_v_used(vv, vars),
                    }));
                    assert(st@ =~= spec_add_reactive_attr(st2v, uuid@, ctx0, loc@, rav));
                }
                let r = process_attrs(
                    variable_names,
                    orig,
                    k + 1,
                    cur,
                    uuid,
                    parent_uuid,
                    ctx,
                    loc,
                    st,
                );
                return r;
            },
        }
    }
    let r = process_attrs(variable_names, orig, k + 1, cur, uuid, parent_uuid, ctx, loc, st);
    r
}

fn apply_one_if(
    variable_names: &Vec<String>,
    rm: RemoveChildForIfStatement,
    uuid: &String,
    el: Element,
    parent_ctx: &Vec<String>,
    st: TransformState,
) -> (r: Result<(Element, TransformState), CompileError>)
    ensures
        ({
            let s = spec_apply_if(
                variable_names.deep_view(),
                rm@,
                uuid@,
                el@,
                parent_ctx.deep_view(),
                st@,
            );
            match r {
                Ok((el2, st2)) => s == Ok::<_, CompileErrorV>((el2@, st2@)),
                Err(e) => s is Err && e@ == s->Err_0,
            }
        }),
{
    let mut el = el;
    let mut st = st;
    let ghost vars = variable_names.deep_view();
    let ghost rmv = rm@;
    let ghost elv = el@;
    let ghost stv = st@;
    let ghost pctx = parent_ctx.deep_view();
    match set_id_attrs(&mut el.attributes, &mut st.needed_ids, &mut st.id_counter, uuid, &rm.ctx) {
        Err(e) => {
            return Err(e);
        },
        Ok(_) => {},
    }
    let ghost sid = spec_set_id(elv.attributes, stv.needed_ids, stv.id_counter, uuid@, rmv.ctx);
    proof {
        assert(el@ =~= (ElementV { attributes: sid->Ok_0.0, ..elv }));
        assert(st@ =~= (TransformStateV {
            needed_ids: sid->Ok_0.1,
            id_counter: sid->Ok_0.2,
            ..stv
        }));
    }
    let ghost elv2 = el@;
    let ghost stv2 = st@;
    match remove_and_anchor(
        &mut el,
        rm.child_uuid.as_str(),
        &mut st.needed_ids,
        &mut st.id_counter,
        parent_ctx,
    ) {
        Err(e) => {
            return Err(e);
        },
        Ok(None) => {
            proof {
                assert(el@ =~= elv2);
                assert(st@ =~= stv2);
            }
            Ok((el, st))
        },
        Ok(Some((removed, distance, anchor))) => {
            let ghost ra = spec_remove_and_anchor(
                elv2.children,
                rmv.child_uuid,
                stv2.needed_ids,
                stv2.id_counter,
                pctx,
            );
            let (cond_rw, cond_used) = append_v_to_vars(rm.condition.as_str(), variable_names);
            let ghost prev_blocks = st.if_blocks_info.deep_view();
            let blk = IfBlockInfo {
                if_block_id: rm.block_id,
                parent_id: uuid.clone(),
                target_if_blk_id: rm.child_uuid,
                distance_to_next_elm: distance,
                target_anchor_id: anchor,
                elm: removed,
                condition: cond_rw,
                condition_dep_vars: cond_used,
                ctx: rm.ctx,
                element_location: rm.elm_loc,
            };
            let ghost blkv = blk@;
            st.if_blocks_info.push(blk);
            proof {
                let (sremoved, snew, sdist, sanchor, n3, c3) = ra->Ok_0->0;
                assert(blkv =~~= (IfBlockInfoV {
                    if_block_id: rmv.block_id,
                    parent_id: uuid@,
                    target_if_blk_id: rmv.child_uuid,
                    distance_to_next_elm: sdist,
                    target_anchor_id: sanchor,
                    elm: sremoved,
                    condition: spec_append_v_text(rmv.condition, vars),
                    condition_dep_vars: spec_append_v_used(rmv.condition, vars),
                    ctx: rmv.ctx,
                    element_location: rmv.elm_loc,
                }));
                assert(st.if_blocks_info.deep_view() =~= prev_blocks.push(blkv));
                assert(st@ =~~= (TransformStateV {
                    needed_ids: n3,
                    id_counter: c3,
                    if_blocks_info: stv2.if_blocks_info.push(blkv),
                    ..stv2
                }));
                assert(el@ =~~= (ElementV { children: snew, ..elv2 }));
            }
            Ok((el, st))
        },
    }
}

fn apply_one_set_id(
    si: SetIdToParentForChildReactiveText,
    uuid: &String,
    el: Element,
    st: TransformState,
) -> (r: Result<(Element, TransformState), CompileError>)
    ensures
        ({
            let s = spec_apply_set_id(si@, uuid@, el@, st@);
            match r {
                Ok((el2, st2)) => s == Ok::<_, CompileErrorV>((el2@, st2@)),
                Err(e) => s is Err && e@ == s->Err_0,
            }
        }),
{
    let mut el = el;
    let mut st = st;
    let ghost siv = si@;
    let ghost elv = el@;
    let ghost stv = st@;
    match set_id_attrs(&mut el.attributes, &mut st.needed_ids, &mut st.id_counter, uuid, &si.ctx) {
        Err(e) => {
            return Err(e);
        },
        Ok(_) => {},
    }
    let ghost sid = spec_set_id(elv.attributes, stv.needed_ids, stv.id_counter, uuid@, siv.ctx);
    let ghost prev_rels = st.elm_and_var_relation.deep_view();
    let rel = ElmAndReactiveInfo::ElmAndVariableRelation(
        ElmAndVariableContentRelation {
            elm_id: uuid.clone(),
            variable_names: si.dependent_vars,
            content_of_element: si.text,
            ctx: si.ctx,
            elm_loc: si.elm_loc,
        },
    );
    let ghost relv = rel@;
    st.elm_and_var_relation.push(rel);
    proof {
        assert(el@ =~= (ElementV { attributes: sid->Ok_0.0, ..elv }));
        assert(relv =~~= ElmAndReactiveInfoV::ElmAndVariableRelation(
            ElmAndVariableContentRelationV {
                elm_id: uuid@,
                variable_names: siv.dependent_vars,
                content_of_element: siv.text,
                ctx: siv.ctx,
                elm_loc: siv.elm_loc,
            },
        ));
        assert(st.elm_and_var_relation.deep_view() =~= prev_rels.push(relv));
        assert(st@ =~~= (TransformStateV {
            needed_ids: sid->Ok_0.1,
            id_counter: sid->Ok_0.2,
            elm_and_var_relation: stv.elm_and_var_relation.push(relv),
            ..stv
        }));
    }
    Ok((el, st))
}

fn apply_one_text(
    rt: RemoveChildTextNode,
    uuid: &String,
    el: Element,
    parent_ctx: &Vec<String>,
    st: TransformState,
) -> (r: Result<(Element, TransformState), CompileError>)
    ensures
        ({
            let s = spec_apply_text(rt@, uuid@, el@, parent_ctx.deep_view(), st@);
            match r {
                Ok((el2, st2)) => s == Ok::<_, CompileErrorV>((el2@, st2@)),
                Err(e) => s is Err && e@ == s->Err_0,
            }
        }),
{
    let mut el = el;
    let mut st = st;
    let ghost rtv = rt@;
    let ghost elv = el@;
    let ghost stv = st@;
    let ghost pctx = parent_ctx.deep_view();
    match set_id_attrs(&mut el.attributes, &mut st.needed_ids, &mut st.id_counter, uuid, &rt.ctx) {
        Err(e) => {
            return Err(e);
        },
        Ok(_) => {},
    }
    let ghost sid = spec_set_id(elv.attributes, stv.needed_ids, stv.id_counter, uuid@, rtv.ctx);
    proof {
        assert(el@ =~= (ElementV { attributes: sid->Ok_0.0, ..elv }));
        assert(st@ =~= (TransformStateV {
            needed_ids: sid->Ok_0.1,
            id_counter: sid->Ok_0.2,
            ..stv
        }));
    }
    let ghost elv2 = el@;
    let ghost stv2 = st@;
    match remove_and_anchor(
        &mut el,
        rt.child_uuid.as_str(),
        &mut st.needed_ids,
        &mut st.id_counter,
        parent_ctx,
    ) {
        Err(e) => {
            return Err(e);
        },
        Ok(None) => {
            proof {
                assert(el@ =~= elv2);
                assert(st@ =~= stv2);
            }
            Ok((el, st))
        },
        Ok(Some((_removed, distance, anchor))) => {
            let ghost ra = spec_remove_and_anchor(
                elv2.children,
                rtv.child_uuid,
                stv2.needed_ids,
                stv2.id_counter,
                pctx,
            );
            let ghost prev_rend = st.text_node_renderer.deep_view();
            let rend = ManualRendererForTextNode {
                parent_id: uuid.clone(),
                text_node_id: rt.child_uuid.clone(),
                distance_to_next_elm: distance,
                dep_vars: clone_string_vec(&rt.dependent_vars),
                content: rt.content.clone(),
                ctx: clone_string_vec(&rt.ctx),
                element_location: clone_usize_vec(&rt.elm_loc),
                target_anchor_id: anchor,
            };
            let ghost rendv = rend@;
            st.text_node_renderer.push(rend);
            let ghost prev_rels = st.elm_and_var_relation.deep_view();
            let rel = ElmAndReactiveInfo::TextAndVariableContentRelation(
                TextAndVariableContentRelation {
                    text_node_id: rt.child_uuid,
                    variable_names: rt.dependent_vars,
                    content_of_element: rt.content,
                    ctx: rt.ctx,
                    elm_loc: rt.elm_loc,
                },
            );
            let ghost relv = rel@;
            st.elm_and_var_relation.push(rel);
            proof {
                let (sremoved, snew, sdist, sanchor, n3, c3) = ra->Ok_0->0;
                assert(rendv =~~= (ManualRendererForTextNodeV {
                    parent_id: uuid@,
                    text_node_id: rtv.child_uuid,
                    distance_to_next_elm: sdist,
                    dep_vars: rtv.dependent_vars,
                    content: rtv.content,
                    ctx: rtv.ctx,
                    element_location: rtv.elm_loc,
                    target_anchor_id: sanchor,
                }));
                assert(relv =~~= ElmAndReactiveInfoV::TextAndVariableContentRelation(
                    TextAndVariableContentRelationV {
                        text_node_id: rtv.child_uuid,
                        variable_names: rtv.dependent_vars,
                        content_of_element: rtv.content,
                        ctx: rtv.ctx,
                        elm_loc: rtv.elm_loc,
                    },
                ));
                assert(st.text_node_renderer.deep_view() =~= prev_rend.push(rendv));
                assert(st.elm_and_var_relation.deep_view() =~= prev_rels.push(relv));
                assert(st@ =~~= (TransformStateV {
                    needed_ids: n3,
                    id_counter: c3,
                    text_node_renderer: stv2.text_node_renderer.push(rendv),
                    elm_and_var_relation: stv2.elm_and_var_relation.push(relv),
                    ..stv2
                }));
                assert(el@ =~~= (ElementV { children: snew, ..elv2 }));
            }
            Ok((el, st))
        },
    }
}

fn apply_manips(
    variable_names: &Vec<String>,
    manips: Vec<HtmlManipulator>,
    uuid: &String,
    el: Element,
    parent_ctx: &Vec<String>,
    st: TransformState,
) -> (r: Result<(Element, TransformState), CompileError>)
    ensures
        ({
            let s = spec_apply_manips(
                variable_names.deep_view(),
                manips.deep_view(),
                uuid@,
                el@,
                parent_ctx.deep_view(),
                st@,
            );
            match r {
                Ok((el2, st2)) => s == Ok::<_, CompileErrorV>((el2@, st2@)),
                Err(e) => s is Err && e@ == s->Err_0,
            }
        }),
{
    let ghost vars = variable_names.deep_view();
    let ghost pctx = parent_ctx.deep_view();
    let ghost target = spec_apply_manips(
        vars,
        manips.deep_view(),
        uuid@,
        el@,
        parent_ctx.deep_view(),
        st@,
    );
    let mut rem = manips;
    let mut el = el;
    let mut st = st;
    let mut err: Option<CompileError> = None;
    while rem.len() > 0 && err.is_none()
        invariant
            vars == variable_names.deep_view(),
            pctx == parent_ctx.deep_view(),
            (match err {
                None => target == spec_apply_manips(vars, rem.deep_view(), uuid@, el@, pctx, st@),
                Some(e) => target is Err && target->Err_0 == e@,
            }),
        decreases rem@.len(),
    {
        let ghost prev_rem = rem.deep_view();
        let ghost prevv = rem@;
        let ghost elv = el@;
        let ghost stv = st@;
        let mp = rem.remove(0);
        proof {
            assert(mp == prevv[0]);
            assert(mp@ == prev_rem[0]);
            assert forall|p: int| 0 <= p < rem@.len() implies #[trigger] rem.deep_view()[p]
                == prev_rem.drop_first()[p] by {
                assert(rem@[p] == prevv.remove(0)[p]);
                assert(rem@[p] == prevv[p + 1]);
                assert(rem.deep_view()[p] == prev_rem[p + 1]);
            }
            assert(rem.deep_view() =~= prev_rem.drop_first());
        }
        if !str_eq(mp.target_uuid.as_str(), uuid.as_str()) {
            proof {
                assert(spec_apply_manips(vars, prev_rem, uuid@, elv, pctx, stv)
                    == spec_apply_manips(vars, rem.deep_view(), uuid@, elv, pctx, stv));
            }
            continue ;
        }
        match mp.manipulations {
            HtmlManipulation::RemoveChildForIfStatement(rm) => {
                let ghost rmv = rm@;
                proof {
                    assert(mp@.manipulations == HtmlManipulationV::RemoveChildForIfStatement(rmv));
                    assert(spec_apply_manips(vars, prev_rem, uuid@, elv, pctx, stv) == (
                    match spec_apply_if(vars, rmv, uuid@, elv, pctx, stv) {
                        Err(e) => Err::<(ElementV, TransformStateV), CompileErrorV>(e),
                        Ok((e2, s2)) => spec_apply_manips(
                            vars,
                            prev_rem.drop_first(),
                            uuid@,
                            e2,
                            pctx,
                            s2,
                        ),
                    }));
                }
                match apply_one_if(variable_names, rm, uuid, el, parent_ctx, st) {
                    Err(e) => {
                        proof {
                            assert(target is Err && target->Err_0 == e@);
                        }
                        err = Some(e);
                        el = Element {
                            name: String::new(),
                            attributes: Vec::new(),
                            children: Vec::new(),
                        };
                        st = TransformState::new();
                    },
                    Ok((el2, st2)) => {
                        proof {
                            assert(spec_apply_if(vars, rmv, uuid@, elv, pctx, stv) == Ok::<
                                (ElementV, TransformStateV),
                                CompileErrorV,
                            >((el2@, st2@)));
                        }
                        el = el2;
                        st = st2;
                        proof {
                            assert(target == spec_apply_manips(
                                vars,
                                rem.deep_view(),
                                uuid@,
                                el@,
                                pctx,
                                st@,
                            ));
                        }
                    },
                }
            },
            HtmlManipulation::SetIdForReactiveContent(si) => {
                let ghost siv = si@;
                proof {
                    assert(mp@.manipulations == HtmlManipulationV::SetIdForReactiveContent(siv));
                    assert(spec_apply_manips(vars, prev_rem, uuid@, elv, pctx, stv) == (
                    match spec_apply_set_id(siv, uuid@, elv, stv) {
                        Err(e) => Err::<(ElementV, TransformStateV), CompileErrorV>(e),
                        Ok((e2, s2)) => spec_apply_manips(
                            vars,
                            prev_rem.drop_first(),
                            uuid@,
                            e2,
                            pctx,
                            s2,
                        ),
                    }));
                }
                match apply_one_set_id(si, uuid, el, st) {
                    Err(e) => {
                        proof {
                            assert(target is Err && target->Err_0 == e@);
                        }
                        err = Some(e);
                        el = Element {
                            name: String::new(),
                            attributes: Vec::new(),
                            children: Vec::new(),
                        };
                        st = TransformState::new();
                    },
                    Ok((el2, st2)) => {
                        el = el2;
                        st = st2;
                        proof {
                            assert(target == spec_apply_manips(
                                vars,
                                rem.deep_view(),
                                uuid@,
                                el@,
                                pctx,
                                st@,
                            ));
                        }
                    },
                }
            },
            HtmlManipulation::RemoveChildTextNode(rt) => {
                let ghost rtv = rt@;
                proof {
                    assert(mp@.manipulations == HtmlManipulationV::RemoveChildTextNode(rtv));
                    assert(spec_apply_manips(vars, prev_rem, uuid@, elv, pctx, stv) == (
                    match spec_apply_text(rtv, uuid@, elv, pctx, stv) {
                        Err(e) => Err::<(ElementV, TransformStateV), CompileErrorV>(e),
                        Ok((e2, s2)) => spec_apply_manips(
                            vars,
                            prev_rem.drop_first(),
                            uuid@,
                            e2,
                            pctx,
                            s2,
                        ),
                    }));
                }
                match apply_one_text(rt, uuid, el, parent_ctx, st) {
                    Err(e) => {
                        proof {
                            assert(target is Err && target->Err_0 == e@);
                        }
                        err = Some(e);
                        el = Element {
                            name: String::new(),
                            attributes: Vec::new(),
                            children: Vec::new(),
                        };
                        st = TransformState::new();
                    },
                    Ok((el2, st2)) => {
                        el = el2;
                        st = st2;
                        proof {
                            assert(target == spec_apply_manips(
                                vars,
                                rem.deep_view(),
                                uuid@,
                                el@,
                                pctx,
                                st@,
                            ));
                        }
                    },
                }
            },
        }
    }
    match err {
        Some(e) => {
            return Err(e);
        },
        None => {},
    }
    proof {
        assert(rem.deep_view() =~= Seq::<HtmlManipulatorV>::empty());
    }
    Ok((el, st))
}

/// Transforms one markup node, growing the state and returning the edits
/// this node requests of its own parent. The traversal is depth-first:
/// attributes are classified first, children are transformed next, and the
/// children's pending edits are applied in source order last.
#[verifier::loop_isolation(false)]
#[verifier::rlimit(100)]
pub fn check_html_elms(
    variable_names: &Vec<String>,
    node: Node,
    state: TransformState,
    parent_uuid: Option<&String>,
    if_blk_ctx: &Vec<String>,
    element_location: &Vec<usize>,
    count_of_siblings: usize,
) -> (r: Result<(Node, TransformState, Vec<HtmlManipulator>), CompileError>)
    ensures
        ({
            let s = spec_check_node(
                variable_names.deep_view(),
                node@,
                (match parent_uuid {
                    Some(p) => Some(p@),
                    None => None::<Seq<char>>,
                }),
                if_blk_ctx.deep_view(),
                element_location@,
                count_of_siblings as nat,
                state@,
            );
            match r {
                Ok((n2, st2, ms)) => s == Ok::<_, CompileErrorV>((n2@, st2@, ms.deep_view())),
                Err(e) => s is Err && e@ == s->Err_0,
            }
        }),
    decreases node,
{
    let ghost vars = variable_names.deep_view();
    let ghost nv = node@;
    let ghost ctxv = if_blk_ctx.deep_view();
    let ghost locv = element_location@;
    let ghost st0 = state@;
    let ghost pv: Option<Seq<char>> = match parent_uuid {
        Some(p) => Some(p@),
        None => None,
    };
    let Node { uuid, content } = node;
    match content {
        NodeContent::Comment(c) => {
            let n2 = Node { uuid, content: NodeContent::Comment(c) };
            let ms: Vec<HtmlManipulator> = Vec::new();
            proof {
                assert(n2@ =~= nv);
                assert(ms.deep_view() =~= Seq::<HtmlManipulatorV>::empty());
            }
            Ok((n2, state, ms))
        },
        NodeContent::TextNode(t) => {
            let ghost t0 = t@;
            let mut t = t;
            let (deps, _count) = replace_text_with_reactive_value(&mut t, variable_names);
            let ghost rep = spec_replace_text(t0, vars, 0);
            if deps.len() > 0 {
                match parent_uuid {
                    None => Err(CompileError::BindingAtRoot),
                    Some(p) => {
                        let manip = if count_of_siblings <= 1 {
                            HtmlManipulator {
                                target_uuid: p.clone(),
                                manipulations: HtmlManipulation::SetIdForReactiveContent(
                                    SetIdToParentForChildReactiveText {
                                        text: t.clone(),
                                        dependent_vars: deps,
                                        ctx: clone_string_vec(if_blk_ctx),
                                        elm_loc: clone_usize_vec(element_location),
                                    },
                                ),
                            }
                        } else {
                            HtmlManipulator {
                                target_uuid: p.clone(),
                                manipulations: HtmlManipulation::RemoveChildTextNode(
                                    RemoveChildTextNode {
                                        child_uuid: uuid.clone(),
                                        content: t.clone(),
                                        dependent_vars: deps,
                                        ctx: clone_string_vec(if_blk_ctx),
                                        elm_loc: clone_usize_vec(element_location),
                                    },
                                ),
                            }
                        };
                        let ghost mv = manip@;
                        let n2 = Node { uuid, content: NodeContent::TextNode(t) };
                        let mut ms: Vec<HtmlManipulator> = Vec::new();
                        ms.push(manip);
                        proof {
                            assert(n2@ =~= (NodeV {
                                uuid: nv.uuid,
                                content: NodeContentV::TextNode(rep.0),
                            }));
                            if count_of_siblings <= 1 {
                                assert(mv =~~= (HtmlManipulatorV {
                                    target_uuid: p@,
                                    manipulations: HtmlManipulationV::SetIdForReactiveContent(
                                        SetIdToParentForChildReactiveTextV {
                                            text: rep.0,
                                            dependent_vars: rep.1,
                                            ctx: ctxv,
                                            elm_loc: locv,
                                        },
                                    ),
                                }));
                            } else {
                                assert(mv =~~= (HtmlManipulatorV {
                                    target_uuid: p@,
                                    manipulations: HtmlManipulationV::RemoveChildTextNode(
                                        RemoveChildTextNodeV {
                                            child_uuid: nv.uuid,
                                            content: rep.0,
                                            dependent_vars: rep.1,
                                            ctx: ctxv,
                                            elm_loc: locv,
                                        },
                                    ),
                                }));
                            }
                            assert(ms.deep_view() =~= seq![mv]);
                        }
                        Ok((n2, state, ms))
                    },
                }
            } else {
                let n2 = Node { uuid, content: NodeContent::TextNode(t) };
                let ms: Vec<HtmlManipulator> = Vec::new();
                proof {
                    assert(n2@ =~= (NodeV {
                        uuid: nv.uuid,
                        content: NodeContentV::TextNode(rep.0),
                    }));
                    assert(ms.deep_view() =~= Seq::<HtmlManipulatorV>::empty());
                }
                Ok((n2, state, ms))
            }
        },
        NodeContent::Element(el) => {
            proof {
                assert(nv.content == NodeContentV::Element(el@));
                assert(nv =~= (NodeV { uuid: uuid@, content: NodeContentV::Element(el@) }));
            }
            check_element(
                variable_names,
                uuid,
                el,
                state,
                parent_uuid,
                if_blk_ctx,
                element_location,
                count_of_siblings,
            )
        },
    }
}

/// No two captured-reference entries use the same DOM id.
pub open spec fn spec_distinct_ids(needed: Seq<NeededIdNameV>) -> bool {
    forall|p: int, q: int|
        0 <= p < q < needed.len() ==> (#[trigger] needed[p]).id_name != (
        #[trigger] needed[q]).id_name
}

proof fn lemma_push_distinct(needed: Seq<NeededIdNameV>, x: NeededIdNameV)
    requires
        spec_distinct_ids(needed),
        !spec_has_id_name(needed, x.id_name),
    ensures
        spec_distinct_ids(needed.push(x)),
{
    let r = needed.push(x);
    assert forall|p: int, q: int| 0 <= p < q < r.len() implies (#[trigger] r[p]).id_name != (
    #[trigger] r[q]).id_name by {
        if q < needed.len() {
            assert(r[p] == needed[p]);
            assert(r[q] == needed[q]);
        } else {
            assert(r[q] == x);
            assert(r[p] == needed[p]);
            if needed[p].id_name == x.id_name {
                assert(spec_has_id_name(needed, x.id_name));
            }
        }
    }
}

proof fn lemma_fresh_id_fresh(needed: Seq<NeededIdNameV>, counter: nat, attempts: nat)
    ensures
        match spec_fresh_id(needed, counter, attempts) {
            Some((id, _c2)) => !spec_has_id_name(needed, id),
            None => true,
        },
    decreases attempts,
{
    if attempts == 0 || counter >= 0xffff_ffff_ffff_ffff {
    } else if !spec_has_id_name(needed, spec_synthetic_id(counter)) {
    } else {
        lemma_fresh_id_fresh(needed, counter + 1, (attempts - 1) as nat);
    }
}

/// Recording a captured reference never produces two entries with the same
/// DOM id: an author-supplied id is coalesced with its earlier entry, and a
/// synthetic id is minted fresh.
pub proof fn lemma_set_id_distinct(
    attrs: Seq<AttrV>,
    needed: Seq<NeededIdNameV>,
    counter: nat,
    uuid: Seq<char>,
    ctx: Seq<Seq<char>>,
)
    requires
        spec_distinct_ids(needed),
    ensures
        match spec_set_id(attrs, needed, counter, uuid, ctx) {
            Ok((_a2, n2, _c2, _id)) => spec_distinct_ids(n2),
            Err(_) => true,
        },
{
    match spec_attr_get(attrs, "id"@) {
        Some(Some(idv)) => {
            if !spec_has_id_name(needed, idv) {
                lemma_push_distinct(
                    needed,
                    NeededIdNameV { id_name: idv, to_delete: false, node_id: uuid, ctx: ctx },
                );
            }
        },
        _ => {
            lemma_fresh_id_fresh(needed, counter, needed.len() + 1);
            match spec_fresh_id(needed, counter, needed.len() + 1) {
                Some((id, _c2)) => {
                    lemma_push_distinct(
                        needed,
                        NeededIdNameV { id_name: id, to_delete: true, node_id: uuid, ctx: ctx },
                    );
                },
                None => {},
            }
        },
    }
}

proof fn lemma_remove_anchor_distinct(
    children: Seq<NodeV>,
    child_uuid: Seq<char>,
    needed: Seq<NeededIdNameV>,
    counter: nat,
    anchor_ctx: Seq<Seq<char>>,
)
    requires
        spec_distinct_ids(needed),
    ensures
        match spec_remove_and_anchor(children, child_uuid, needed, counter, anchor_ctx) {
            Ok(Some((_r, _nk, _d, _a, n2, _c2))) => spec_distinct_ids(n2),
            _ => true,
        },
{
    let i = spec_child_index(children, child_uuid);
    if i >= 0 {
        let newkids = children.subrange(0, i) + children.subrange(i + 1, children.len() as int);
        let j = spec_next_elm_index(newkids, i);
        if j >= 0 {
            let a = newkids[j];
            match a.content {
                NodeContentV::Element(ae) => {
                    lemma_set_id_distinct(ae.attributes, needed, counter, a.uuid, anchor_ctx);
                },
                _ => {},
            }
        }
    }
}

proof fn lemma_apply_one_distinct(
    vars: Seq<Seq<char>>,
    mp: HtmlManipulationV,
    uuid: Seq<char>,
    el: ElementV,
    parent_ctx: Seq<Seq<char>>,
    st: TransformStateV,
)
    requires
        spec_distinct_ids(st.needed_ids),
    ensures
        match mp {
            HtmlManipulationV::RemoveChildForIfStatement(rm) => match spec_apply_if(
                vars,
                rm,
                uuid,
                el,
                parent_ctx,
                st,
            ) {
                Ok((_e2, st2)) => spec_distinct_ids(st2.needed_ids),
                Err(_) => true,
            },
            HtmlManipulationV::SetIdForReactiveContent(si) => match spec_apply_set_id(
                si,
                uuid,
                el,
                st,
            ) {
                Ok((_e2, st2)) => spec_distinct_ids(st2.needed_ids),
                Err(_) => true,
            },
            HtmlManipulationV::RemoveChildTextNode(rt) => match spec_apply_text(
                rt,
                uuid,
                el,
                parent_ctx,
                st,
            ) {
                Ok((_e2, st2)) => spec_distinct_ids(st2.needed_ids),
                Err(_) => true,
            },
        },
{
    match mp {
        HtmlManipulationV::RemoveChildForIfStatement(rm) => {
            lemma_set_id_distinct(el.attributes, st.needed_ids, st.id_counter, uuid, rm.ctx);
            match spec_set_id(el.attributes, st.needed_ids, st.id_counter, uuid, rm.ctx) {
                Ok((a2, n2, c2, _id)) => {
                    let el2 = ElementV { attributes: a2, ..el };
                    lemma_remove_anchor_distinct(el2.children, rm.child_uuid, n2, c2, parent_ctx);
                },
                Err(_) => {},
            }
        },
        HtmlManipulationV::SetIdForReactiveContent(si) => {
            lemma_set_id_distinct(el.attributes, st.needed_ids, st.id_counter, uuid, si.ctx);
        },
        HtmlManipulationV::RemoveChildTextNode(rt) => {
            lemma_set_id_distinct(el.attributes, st.needed_ids, st.id_counter, uuid, rt.ctx);
            match spec_set_id(el.attributes, st.needed_ids, st.id_counter, uuid, rt.ctx) {
                Ok((a2, n2, c2, _id)) => {
                    let el2 = ElementV { attributes: a2, ..el };
                    lemma_remove_anchor_distinct(el2.children, rt.child_uuid, n2, c2, parent_ctx);
                },
                Err(_) => {},
            }
        },
    }
}

proof fn lemma_apply_manips_distinct(
    vars: Seq<Seq<char>>,
    manips: Seq<HtmlManipulatorV>,
    uuid: Seq<char>,
    el: ElementV,
    parent_ctx: Seq<Seq<char>>,
    st: TransformStateV,
)
    requires
        spec_distinct_ids(st.needed_ids),
    ensures
        match spec_apply_manips(vars, manips, uuid, el, parent_ctx, st) {
            Ok((_e2, st2)) => spec_distinct_ids(st2.needed_ids),
            Err(_) => true,
        },
    decreases manips.len(),
{
    if manips.len() > 0 {
        let mp = manips[0];
        let rest = manips.drop_first();
        if mp.target_uuid != uuid {
            lemma_apply_manips_distinct(vars, rest, uuid, el, parent_ctx, st);
        } else {
            lemma_apply_one_distinct(vars, mp.manipulations, uuid, el, parent_ctx, st);
            let step = (match mp.manipulations {
                HtmlManipulationV::RemoveChildForIfStatement(rm) => spec_apply_if(
                    vars,
                    rm,
                    uuid,
                    el,
                    parent_ctx,
                    st,
                ),
                HtmlManipulationV::SetIdForReactiveContent(si) => spec_apply_set_id(
                    si,
                    uuid,
                    el,
                    st,
                ),
                HtmlManipulationV::RemoveChildTextNode(rt) => spec_apply_text(
                    rt,
                    uuid,
                    el,
                    parent_ctx,
                    st,
                ),
            });
            match step {
                Ok((el2, st2)) => {
                    lemma_apply_manips_distinct(vars, rest, uuid, el2, parent_ctx, st2);
                },
                Err(_) => {},
            }
        }
    }
}

proof fn lemma_process_attrs_distinct(
    vars: Seq<Seq<char>>,
    orig: Seq<AttrV>,
    k: int,
    cur: Seq<AttrV>,
    uuid: Seq<char>,
    parent: Option<Seq<char>>,
    ctx: Seq<Seq<char>>,
    loc: Seq<usize>,
    st: TransformStateV,
)
    requires
        spec_distinct_ids(st.needed_ids),
    ensures
        match spec_process_attrs(vars, orig, k, cur, uuid, parent, ctx, loc, st) {
            Ok((_a2, _c2, st2, _ms)) => spec_distinct_ids(st2.needed_ids),
            Err(_) => true,
        },
    decreases orig.len() - k,
{
    if 0 <= k < orig.len() {
        let (key, val) = orig[k];
        if key.len() > 0 && key[0] == '@' {
            lemma_set_id_distinct(cur, st.needed_ids, st.id_counter, uuid, ctx);
            match spec_set_id(cur, st.needed_ids, st.id_counter, uuid, ctx) {
                Ok((cur2, needed2, c2, _id)) => {
                    let st2 = TransformStateV { needed_ids: needed2, id_counter: c2, ..st };
                    let st3 = match val {
                        Some(v) => TransformStateV {
                            actions_and_targets: st2.actions_and_targets.push(
                                ActionAndTargetV {
                                    action_name: key.skip(1),
                                    action: spec_event_target_new(v, vars),
                                    target: uuid,
                                },
                            ),
                            ..st2
                        },
                        None => st2,
                    };
                    lemma_process_attrs_distinct(
                        vars,
                        orig,
                        k + 1,
                        spec_attr_remove(cur2, key),
                        uuid,
                        parent,
                        ctx,
                        loc,
                        st3,
                    );
                },
                Err(_) => {},
            }
        } else if key == ":if"@ {
            lemma_process_attrs_distinct(
                vars,
                orig,
                k + 1,
                spec_attr_remove(cur, key),
                uuid,
                parent,
                ctx.push(uuid),
                loc,
                st,
            );
        } else if key.len() >= 2 && key[0] == ':' && key[1] == ':' {
            lemma_set_id_distinct(cur, st.needed_ids, st.id_counter, uuid, ctx);
            match spec_set_id(cur, st.needed_ids, st.id_counter, uuid, ctx) {
                Ok((cur2, needed2, c2, _id)) => {
                    let st2 = TransformStateV { needed_ids: needed2, id_counter: c2, ..st };
                    match val {
                        None => {
                            lemma_process_attrs_distinct(
                                vars,
                                orig,
                                k + 1,
                                spec_attr_remove(cur2, key),
                                uuid,
                                parent,
                                ctx,
                                loc,
                                st2,
                            );
                        },
                        Some(v) => {
                            if spec_word_is_one_word(v) {
                                let battr = key.skip(2);
                                let st3 = TransformStateV {
                                    actions_and_targets: st2.actions_and_targets.push(
                                        ActionAndTargetV {
                                            action_name: "input"@,
                                            action: EventTargetV::EventBindingStatement(
                                                EventBindingStatementV {
                                                    statement: v + ".v = event.target."@ + battr,
                                                    arg: "e"@,
                                                },
                                            ),
                                            target: uuid,
                                        },
                                    ),
                                    elm_and_var_relation: st2.elm_and_var_relation.push(
                                        ElmAndReactiveInfoV::ElmAndReactiveAttributeRelation(
                                            ElmAndReactiveAttributeRelationV {
                                                elm_id: uuid,
                                                reactive_attr: seq![
                                                    ReactiveAttrV {
                                                        attribute_key: battr,
                                                        content_of_attr: v + ".v"@,
                                                        variable_names: seq![v],
                                                    },
                                                ],
                                                ctx: ctx,
                                                elm_loc: loc,
                                            },
                                        ),
                                    ),
                                    ..st2
                                };
                                lemma_process_attrs_distinct(
                                    vars,
                                    orig,
                                    k + 1,
                                    spec_attr_remove(cur2, key),
                                    uuid,
                                    parent,
                                    ctx,
                                    loc,
                                    st3,
                                );
                            }
                        },
                    }
                },
                Err(_) => {},
            }
        } else if key.len() >= 1 && key[0] == ':' {
            if !(key == ":innerHtml"@ || key == ":textContent"@) {
                lemma_set_id_distinct(cur, st.needed_ids, st.id_counter, uuid, ctx);
                match spec_set_id(cur, st.needed_ids, st.id_counter, uuid, ctx) {
                    Ok((cur2, needed2, c2, _id)) => {
                        let st2 = TransformStateV { needed_ids: needed2, id_counter: c2, ..st };
                        match val {
                            None => {},
                            Some(v) => {
                                let rw = spec_append_v_text(v, vars);
                                let used = spec_append_v_used(v, vars);
                                let name = key.skip(1);
                                let cur3 = spec_attr_upsert(
                                    spec_attr_remove(cur2, key),
                                    name,
                                    Some("${"@ + rw + "}"@),
                                );
                                let st3 = spec_add_reactive_attr(
                                    st2,
                                    uuid,
                                    ctx,
                                    loc,
                                    ReactiveAttrV {
                                        attribute_key: name,
                                        content_of_attr: rw,
                                        variable_names: used,
                                    },
                                );
                                assert(st3.needed_ids == st2.needed_ids);
                                lemma_process_attrs_distinct(
                                    vars,
                                    orig,
                                    k + 1,
                                    cur3,
                                    uuid,
                                    parent,
                                    ctx,
                                    loc,
                                    st3,
                                );
                            },
                        }
                    },
                    Err(_) => {},
                }
            }
        } else {
            lemma_process_attrs_distinct(vars, orig, k + 1, cur, uuid, parent, ctx, loc, st);
        }
    }
}

/// The transformer never records two captured-reference entries with the
/// same DOM id, whatever node it starts from.
pub proof fn lemma_check_node_distinct(
    vars: Seq<Seq<char>>,
    node: NodeV,
    parent: Option<Seq<char>>,
    ctx: Seq<Seq<char>>,
    loc: Seq<usize>,
    count_of_siblings: nat,
    st: TransformStateV,
)
    requires
        spec_distinct_ids(st.needed_ids),
    ensures
        match spec_check_node(vars, node, parent, ctx, loc, count_of_siblings, st) {
            Ok((_n2, st2, _ms)) => spec_distinct_ids(st2.needed_ids),
            Err(_) => true,
        },
    decreases node,
{
    match node.content {
        NodeContentV::Comment(_) => {},
        NodeContentV::TextNode(_) => {},
        NodeContentV::Element(el) => {
            lemma_process_attrs_distinct(
                vars,
                el.attributes,
                0,
                el.attributes,
                node.uuid,
                parent,
                ctx,
                loc,
                st,
            );
            match spec_process_attrs(
                vars,
                el.attributes,
                0,
                el.attributes,
                node.uuid,
                parent,
                ctx,
                loc,
                st,
            ) {
                Err(_) => {},
                Ok((attrs2, ctx2, st2, _my_manips)) => {
                    lemma_check_children_distinct(
                        vars,
                        el.children,
                        0,
                        node.uuid,
                        ctx2,
                        loc,
                        el.children.len(),
                        st2,
                    );
                    match spec_check_children(
                        vars,
                        el.children,
                        0,
                        node.uuid,
                        ctx2,
                        loc,
                        el.children.len(),
                        st2,
                    ) {
                        Err(_) => {},
                        Ok((kids2, st3, child_manips)) => {
                            let sorted = spec_insertion_sort(
                                child_manips,
                                |a: HtmlManipulatorV, b: HtmlManipulatorV| spec_manip_le(a, b),
                            );
                            lemma_apply_manips_distinct(
                                vars,
                                sorted,
                                node.uuid,
                                ElementV { name: el.name, attributes: attrs2, children: kids2 },
                                ctx,
                                st3,
                            );
                        },
                    }
                },
            }
        },
    }
}

proof fn lemma_check_children_distinct(
    vars: Seq<Seq<char>>,
    kids: Seq<NodeV>,
    idx: nat,
    parent_uuid: Seq<char>,
    ctx: Seq<Seq<char>>,
    loc: Seq<usize>,
    count_of_siblings: nat,
    st: TransformStateV,
)
    requires
        spec_distinct_ids(st.needed_ids),
    ensures
        match spec_check_children(vars, kids, idx, parent_uuid, ctx, loc, count_of_siblings, st) {
            Ok((_k2, st2, _ms)) => spec_distinct_ids(st2.needed_ids),
            Err(_) => true,
        },
    decreases kids,
{
    if kids.len() > 0 {
        lemma_check_node_distinct(
            vars,
            kids[0],
            Some(parent_uuid),
            ctx,
            loc.push(idx as usize),
            count_of_siblings,
            st,
        );
        match spec_check_node(
            vars,
            kids[0],
            Some(parent_uuid),
            ctx,
            loc.push(idx as usize),
            count_of_siblings,
            st,
        ) {
            Err(_) => {},
            Ok((_n2, st2, _ms)) => {
                lemma_check_children_distinct(
                    vars,
                    kids.drop_first(),
                    idx + 1,
                    parent_uuid,
                    ctx,
                    loc,
                    count_of_siblings,
                    st2,
                );
            },
        }
    }
}

/// Transforms one element node: classifies its attributes, transforms its
/// children, and applies the children's pending edits in source order.
#[verifier::loop_isolation(false)]
#[verifier::rlimit(100)]
fn check_element(
    variable_names: &Vec<String>,
    uuid: String,
    el: Element,
    state: TransformState,
    parent_uuid: Option<&String>,
    if_blk_ctx: &Vec<String>,
    element_location: &Vec<usize>,
    count_of_siblings: usize,
) -> (r: Result<(Node, TransformState, Vec<HtmlManipulator>), CompileError>)
    ensures
        ({
            let s = spec_check_node(
                variable_names.deep_view(),
                NodeV { uuid: uuid@, content: NodeContentV::Element(el@) },
                (match parent_uuid {
                    Some(p) => Some(p@),
                    None => None::<Seq<char>>,
                }),
                if_blk_ctx.deep_view(),
                element_location@,
                count_of_siblings as nat,
                state@,
            );
            match r {
                Ok((n2, st2, ms)) => s == Ok::<_, CompileErrorV>((n2@, st2@, ms.deep_view())),
                Err(e) => s is Err && e@ == s->Err_0,
            }
        }),
    decreases el,
{
    let ghost vars = variable_names.deep_view();
    let ghost elv0 = el@;
    let ghost nv = NodeV { uuid: uuid@, content: NodeContentV::Element(elv0) };
    let ghost ctxv = if_blk_ctx.deep_view();
    let ghost locv = element_location@;
    let ghost st0 = state@;
    let ghost pv: Option<Seq<char>> = match parent_uuid {
        Some(p) => Some(p@),
        None => None,
    };
    {
            let Element { name, attributes, children } = el;
            let ghost elv = (match nv.content {
                NodeContentV::Element(x) => x,
                _ => arbitrary(),
            });
            proof {
                assert(elv.attributes == attrs_view(attributes@));
                assert(elv.children == nodes_view(children@));
                assert(elv.name == name@);
            }
            let cur = clone_attrs(&attributes);
            let ctx_for_attrs = clone_string_vec(if_blk_ctx);
            match process_attrs(
                variable_names,
                &attributes,
                0,
                cur,
                &uuid,
                parent_uuid,
                ctx_for_attrs,
                element_location,
                state,
            ) {
                Err(e) => {
                    return Err(e);
                },
                Ok((attrs2, ctx2, st2, my_manips)) => {
                    let ghost pa = spec_process_attrs(
                        vars,
                        elv.attributes,
                        0,
                        elv.attributes,
                        nv.uuid,
                        pv,
                        ctxv,
                        locv,
                        st0,
                    );
                    let ghost cx2 = ctx2.deep_view();
                    let ghost st2v = st2@;
                    proof {
                        assert(pa == Ok::<_, CompileErrorV>(
                            (attrs_view(attrs2@), cx2, st2v, my_manips.deep_view()),
                        ));
                    }
                    let nsib = children.len();
                    let ghost children0 = children@;
                    let ghost kidsv = nodes_view(children0);
                    let ghost full = spec_check_children(
                        vars,
                        kidsv,
                        0,
                        nv.uuid,
                        cx2,
                        locv,
                        nsib as nat,
                        st2v,
                    );
                    proof {
                        lemma_nodes_view(children0);
                    }
                    let mut rem = children;
                    let mut new_children: Vec<Node> = Vec::new();
                    let mut child_manips: Vec<HtmlManipulator> = Vec::new();
                    let mut st_cur = st2;
                    let mut i: usize = 0;
                    let mut err: Option<CompileError> = None;
                    proof {
                        assert(rem@ =~= children0.skip(0));
                        assert(nodes_view(new_children@) =~= Seq::<NodeV>::empty());
                        assert(child_manips.deep_view() =~= Seq::<HtmlManipulatorV>::empty());
                    }
                    while rem.len() > 0 && err.is_none()
                        invariant
                            i + rem@.len() == children0.len(),
                            rem@ == children0.skip(i as int),
                            (match err {
                                None => full == (match spec_check_children(
                                    vars,
                                    nodes_view(rem@),
                                    i as nat,
                                    nv.uuid,
                                    cx2,
                                    locv,
                                    nsib as nat,
                                    st_cur@,
                                ) {
                                    Err(e) => Err::<
                                        (Seq<NodeV>, TransformStateV, Seq<HtmlManipulatorV>),
                                        CompileErrorV,
                                    >(e),
                                    Ok((rk, stf, msf)) => Ok(
                                        (
                                            nodes_view(new_children@) + rk,
                                            stf,
                                            child_manips.deep_view() + msf,
                                        ),
                                    ),
                                }),
                                Some(e) => full is Err && full->Err_0 == e@,
                            }),
                        decreases rem@.len(),
                    {
                        let ghost prev_rem = rem@;
                        let child = rem.remove(0);
                        proof {
                            assert(child == prev_rem[0]);
                            assert(rem@ =~= children0.skip(i as int + 1));
                            lemma_nodes_view(prev_rem);
                            lemma_nodes_view(rem@);
                            assert(nodes_view(prev_rem)[0] == node_view(child));
                            assert forall|p: int| 0 <= p < rem@.len() implies #[trigger] nodes_view(
                                rem@,
                            )[p] == nodes_view(prev_rem).drop_first()[p] by {
                                assert(rem@[p] == prev_rem[p + 1]);
                                assert(nodes_view(rem@)[p] == node_view(rem@[p]));
                                assert(nodes_view(prev_rem)[p + 1] == node_view(prev_rem[p + 1]));
                            }
                            assert(nodes_view(rem@) =~= nodes_view(prev_rem).drop_first());
                            assert(decreases_to!(el => child));
                        }
                        let mut child_loc = clone_usize_vec(element_location);
                        child_loc.push(i);
                        proof {
                            assert(child_loc@ =~= locv.push(i as usize));
                        }
                        let ghost st_pre = st_cur@;
                        let ghost acc_kids = nodes_view(new_children@);
                        let ghost acc_ms = child_manips.deep_view();
                        match check_html_elms(
                            variable_names,
                            child,
                            st_cur,
                            Some(&uuid),
                            &ctx2,
                            &child_loc,
                            nsib,
                        ) {
                            Err(e) => {
                                proof {
                                    assert(spec_check_children(
                                        vars,
                                        nodes_view(prev_rem),
                                        i as nat,
                                        nv.uuid,
                                        cx2,
                                        locv,
                                        nsib as nat,
                                        st_pre,
                                    ) is Err);
                                    assert(full is Err && full->Err_0 == e@);
                                }
                                err = Some(e);
                                st_cur = TransformState::new();
                                i = i + 1;
                            },
                            Ok((n2, stx, ms)) => {
                                let ghost n2v = n2@;
                                let ghost msv = ms.deep_view();
                                let ghost prev_exec_kids = new_children@;
                                new_children.push(n2);
                                proof {
                                    lemma_nodes_view(new_children@);
                                    lemma_nodes_view(prev_exec_kids);
                                    assert forall|p: int|
                                        0 <= p < new_children@.len() implies #[trigger] nodes_view(
                                        new_children@,
                                    )[p] == acc_kids.push(n2v)[p] by {
                                        if p < prev_exec_kids.len() {
                                            assert(new_children@[p] == prev_exec_kids[p]);
                                            assert(nodes_view(prev_exec_kids)[p] == node_view(
                                                prev_exec_kids[p],
                                            ));
                                        } else {
                                            assert(new_children@[p] == prev_exec_kids.push(
                                                new_children@[new_children@.len() - 1],
                                            )[p]);
                                        }
                                    }
                                }
                                let mut ms = ms;
                                child_manips.append(&mut ms);
                                st_cur = stx;
                                proof {
                                    assert(nodes_view(new_children@) =~= acc_kids.push(n2v));
                                    assert(child_manips.deep_view() =~= acc_ms + msv);
                                    let inner = spec_check_children(
                                        vars,
                                        nodes_view(rem@),
                                        i as nat + 1,
                                        nv.uuid,
                                        cx2,
                                        locv,
                                        nsib as nat,
                                        st_cur@,
                                    );
                                    assert(spec_check_children(
                                        vars,
                                        nodes_view(prev_rem),
                                        i as nat,
                                        nv.uuid,
                                        cx2,
                                        locv,
                                        nsib as nat,
                                        st_pre,
                                    ) == (match inner {
                                        Err(e) => Err::<
                                            (Seq<NodeV>, TransformStateV, Seq<HtmlManipulatorV>),
                                            CompileErrorV,
                                        >(e),
                                        Ok((rk2, stf, msf2)) => Ok(
                                            (seq![n2v] + rk2, stf, msv + msf2),
                                        ),
                                    }));
                                    if inner is Ok {
                                        let (rk2, stf, msf2) = inner->Ok_0;
                                        assert(acc_kids + (seq![n2v] + rk2) =~= acc_kids.push(n2v)
                                            + rk2);
                                        assert(acc_ms + (msv + msf2) =~= (acc_ms + msv) + msf2);
                                    }
                                }
                                i = i + 1;
                            },
                        }
                    }
                    match err {
                        Some(e) => {
                            return Err(e);
                        },
                        None => {},
                    }
                    proof {
                        assert(rem@.len() == 0);
                        assert(nodes_view(rem@) =~= Seq::<NodeV>::empty());
                        let fin = spec_check_children(
                            vars,
                            nodes_view(rem@),
                            i as nat,
                            nv.uuid,
                            cx2,
                            locv,
                            nsib as nat,
                            st_cur@,
                        );
                        assert(fin == Ok::<_, CompileErrorV>(
                            (
                                Seq::<NodeV>::empty(),
                                st_cur@,
                                Seq::<HtmlManipulatorV>::empty(),
                            ),
                        ));
                        assert(nodes_view(new_children@) + Seq::<NodeV>::empty() =~= nodes_view(
                            new_children@,
                        ));
                        assert(child_manips.deep_view() + Seq::<HtmlManipulatorV>::empty()
                            =~= child_manips.deep_view());
                        assert(full == Ok::<_, CompileErrorV>(
                            (nodes_view(new_children@), st_cur@, child_manips.deep_view()),
                        ));
                    }
                    let ghost pre_sort = child_manips.deep_view();
                    sort_manipulations(&mut child_manips);
                    proof {
                        assert(child_manips.deep_view() == spec_insertion_sort(
                            pre_sort,
                            |a: HtmlManipulatorV, b: HtmlManipulatorV| spec_manip_le(a, b),
                        ));
                    }
                    let el2 = Element { name, attributes: attrs2, children: new_children };
                    proof {
                        assert(el2@ =~= (ElementV {
                            name: elv.name,
                            attributes: attrs_view(attrs2@),
                            children: nodes_view(new_children@),
                        }));
                    }
                    match apply_manips(
                        variable_names,
                        child_manips,
                        &uuid,
                        el2,
                        if_blk_ctx,
                        st_cur,
                    ) {
                        Err(e) => Err(e),
                        Ok((el3, st4)) => {
                            let n2 = Node { uuid, content: NodeContent::Element(el3) };
                            proof {
                                assert(n2@ =~= (NodeV {
                                    uuid: nv.uuid,
                                    content: NodeContentV::Element(el3@),
                                }));
                            }
                            Ok((n2, st4, my_manips))
                        },
                    }
                },
            }
    }
}

} // verus!
