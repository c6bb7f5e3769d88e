//! The library's global guarantees, stated over the same specification
//! functions that the public contracts use: deterministic compilation,
//! uniqueness of the variable bitmasks, and the anchor rules for
//! conditional blocks.

use crate::codec::{lemma_bitmask_uniqueness, spec_combine, spec_low_mask};
use crate::generate::{spec_anchor_ref, spec_anchor_unit, spec_block_renderer, spec_insert_elm};
use crate::info::IfBlockInfoV;
use crate::script::{
    lemma_fvd_items_count, spec_analyze_js, spec_fvd_items, spec_obj_get, ScriptValueV,
};
use crate::generate::TemplateUnitV;
use crate::output::{spec_compile, BlveCompilerOutputV};
use vstd::prelude::*;

verus! {

/// Law: compiling the same template with the same options twice yields
/// byte-identical output. The compiler's public contract pins its result to
/// a specification function of the input alone, so any two results of the
/// same compilation are the same value, byte for byte.
pub proof fn lemma_compile_deterministic(
    t: TemplateUnitV,
    no_export: Option<bool>,
    runtime_path: Option<Seq<char>>,
    r1: BlveCompilerOutputV,
    r2: BlveCompilerOutputV,
)
    requires
        spec_compile(t, no_export, runtime_path) == Ok::<BlveCompilerOutputV, Seq<char>>(r1),
        spec_compile(t, no_export, runtime_path) == Ok::<BlveCompilerOutputV, Seq<char>>(r2),
    ensures
        r1 == r2,
        r1.js == r2.js,
        r1.css == r2.css,
{
}

/// Law: for `N <= 32` declared reactive variables, the analyzer assigns
/// pairwise distinct power-of-two masks, the `k`-th being `2^k`, and their
/// OR is `2^N - 1`.
pub proof fn lemma_variable_masks_unique(json: ScriptValueV, script: Seq<char>)
    ensures
        match spec_analyze_js(json, script) {
            Ok((vars, names, out)) => {
                &&& vars.len() <= 32
                &&& forall|k: int|
                    0 <= k < vars.len() ==> (#[trigger] vars[k]).assignment == 1u32 << (k as u32)
                &&& forall|i: int, j: int|
                    0 <= i < j < vars.len() ==> vars[i].assignment != vars[j].assignment
                &&& spec_combine(Seq::new(vars.len(), |i: int| vars[i].assignment))
                    == spec_low_mask(vars.len())
            },
            Err(_) => true,
        },
{
    match spec_analyze_js(json, script) {
        Ok((vars, names, out)) => {
            match json {
                ScriptValueV::Obj(o) => {
                    match spec_obj_get(o, "body"@) {
                        Some(ScriptValueV::Arr(body)) => {
                            lemma_fvd_items_count(body, 0, 0);
                            assert(spec_fvd_items(body, 0, 0) is Ok);
                        },
                        _ => {
                            assert(vars.len() == 0);
                        },
                    }
                },
                _ => {
                    assert(vars.len() == 0);
                },
            }
            let masks = Seq::new(vars.len(), |i: int| vars[i].assignment);
            assert(forall|k: int| 0 <= k < masks.len() ==> masks[k] == 1u32 << (k as u32));
            lemma_bitmask_uniqueness(masks);
            assert forall|i: int, j: int| 0 <= i < j < vars.len() implies vars[i].assignment
                != vars[j].assignment by {
                assert(masks[i] != masks[j]);
            }
        },
        Err(_) => {},
    }
}

/// Law: id-capture uniqueness. Transforming a markup tree from a fresh
/// state never records two captured-reference entries with the same DOM id:
/// duplicate requests for the same author-supplied id are coalesced into
/// one entry, and synthesized ids are minted fresh. So no element is
/// captured twice, for any context.
pub proof fn lemma_id_capture_unique(vars: Seq<Seq<char>>, dom: crate::markup::NodeV)
    ensures
        match crate::transform::spec_check_node(
            vars,
            dom,
            None,
            Seq::empty(),
            seq![0usize],
            1,
            crate::generate::spec_initial_state(),
        ) {
            Ok((_n2, st, _ms)) => crate::transform::spec_distinct_ids(st.needed_ids),
            Err(_) => true,
        },
{
    assert(crate::transform::spec_distinct_ids(
        crate::generate::spec_initial_state().needed_ids,
    ));
    crate::transform::lemma_check_node_distinct(
        vars,
        dom,
        None,
        Seq::empty(),
        seq![0usize],
        1,
        crate::generate::spec_initial_state(),
    );
}

/// Law: anchor correctness for a conditional block. When more than one
/// position separates the block from its next element sibling, the
/// creation code emits a synthetic empty anchor for the block (in the
/// block's own context) and the block's sub-tree is inserted before that
/// anchor. When the next element sibling is adjacent and captured, no
/// synthetic anchor is emitted and the sibling's own reference is reused as
/// the insertion point; with nothing following, insertion appends.
pub proof fn lemma_anchor_correctness(blk: IfBlockInfoV, cond: Seq<Seq<char>>)
    ensures
        blk.distance_to_next_elm > 1 && blk.ctx == cond ==> spec_anchor_unit(
            spec_block_renderer(blk),
            cond,
        ) =~= seq![
            "const "@ + blk.if_block_id + "Anchor = insertEmpty("@ + blk.parent_id + "Ref,"@
                + spec_anchor_ref(blk.target_anchor_id) + ");"@,
        ],
        blk.distance_to_next_elm > 1 ==> spec_insert_elm(blk) == blk.parent_id
            + "Ref.insertBefore("@ + blk.if_block_id + "Ref"@ + ", "@ + blk.if_block_id
            + "Anchor);"@,
        blk.distance_to_next_elm <= 1 ==> spec_anchor_unit(spec_block_renderer(blk), cond)
            =~= Seq::<Seq<char>>::empty(),
        blk.distance_to_next_elm <= 1 ==> (match blk.target_anchor_id {
            Some(a) => spec_insert_elm(blk) == blk.parent_id + "Ref.insertBefore("@
                + blk.if_block_id + "Ref"@ + ", "@ + a + "Ref);"@,
            None => spec_insert_elm(blk) == blk.parent_id + "Ref.insertBefore("@
                + blk.if_block_id + "Ref"@ + ", null);"@,
        }),
{
}

} // verus!
