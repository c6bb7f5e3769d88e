//! Binding descriptors extracted by the markup transformer: reactive
//! attribute relations, element-content relations and text-node relations,
//! with the global sort that fixes their emission order and the containment
//! masks computed from the conditional-block context.

use crate::codec::spec_containment;
use crate::info::IfBlockInfo;
use crate::info::IfBlockInfoV;
use crate::sorting::{
    lemma_insert_sorted_at, loc_le, spec_insert_sorted, spec_insertion_sort, spec_loc_le,
};
use crate::strutil::contains_string;
use vstd::prelude::*;

verus! {

broadcast use {vstd::std_specs::vec::group_vec_axioms, vstd::seq::group_seq_axioms};

/// One reactive attribute on an element: the attribute name, its rewritten
/// value expression, and the variables that expression reads.
pub struct ReactiveAttr {
    pub attribute_key: String,
    pub content_of_attr: String,
    pub variable_names: Vec<String>,
}

/// The ghost form of a reactive attribute.
#[verifier::ext_equal]
pub struct ReactiveAttrV {
    pub attribute_key: Seq<char>,
    pub content_of_attr: Seq<char>,
    pub variable_names: Seq<Seq<char>>,
}

impl View for ReactiveAttr {
    type V = ReactiveAttrV;

    open spec fn view(&self) -> ReactiveAttrV {
        ReactiveAttrV {
            attribute_key: self.attribute_key@,
            content_of_attr: self.content_of_attr@,
            variable_names: self.variable_names.deep_view(),
        }
    }
}

impl DeepView for ReactiveAttr {
    type V = ReactiveAttrV;

    open spec fn deep_view(&self) -> ReactiveAttrV {
        self.view()
    }
}

/// An element whose text content is one reactive interpolation.
pub struct ElmAndVariableContentRelation {
    pub elm_id: String,
    pub variable_names: Vec<String>,
    pub content_of_element: String,
    pub ctx: Vec<String>,
    pub elm_loc: Vec<usize>,
}

/// The ghost form of an element-content relation.
#[verifier::ext_equal]
pub struct ElmAndVariableContentRelationV {
    pub elm_id: Seq<char>,
    pub variable_names: Seq<Seq<char>>,
    pub content_of_element: Seq<char>,
    pub ctx: Seq<Seq<char>>,
    pub elm_loc: Seq<usize>,
}

impl View for ElmAndVariableContentRelation {
    type V = ElmAndVariableContentRelationV;

    open spec fn view(&self) -> ElmAndVariableContentRelationV {
        ElmAndVariableContentRelationV {
            elm_id: self.elm_id@,
            variable_names: self.variable_names.deep_view(),
            content_of_element: self.content_of_element@,
            ctx: self.ctx.deep_view(),
            elm_loc: self.elm_loc@,
        }
    }
}

/// An element with one or more reactive attributes.
pub struct ElmAndReactiveAttributeRelation {
    pub elm_id: String,
    pub reactive_attr: Vec<ReactiveAttr>,
    pub ctx: Vec<String>,
    pub elm_loc: Vec<usize>,
}

/// The ghost form of a reactive-attribute relation.
#[verifier::ext_equal]
pub struct ElmAndReactiveAttributeRelationV {
    pub elm_id: Seq<char>,
    pub reactive_attr: Seq<ReactiveAttrV>,
    pub ctx: Seq<Seq<char>>,
    pub elm_loc: Seq<usize>,
}

impl View for ElmAndReactiveAttributeRelation {
    type V = ElmAndReactiveAttributeRelationV;

    open spec fn view(&self) -> ElmAndReactiveAttributeRelationV {
        ElmAndReactiveAttributeRelationV {
            elm_id: self.elm_id@,
            reactive_attr: self.reactive_attr.deep_view(),
            ctx: self.ctx.deep_view(),
            elm_loc: self.elm_loc@,
        }
    }
}

/// A manually rendered text node whose content is reactive.
pub struct TextAndVariableContentRelation {
    pub text_node_id: String,
    pub variable_names: Vec<String>,
    pub content_of_element: String,
    pub ctx: Vec<String>,
    pub elm_loc: Vec<usize>,
}

/// The ghost form of a text-content relation.
#[verifier::ext_equal]
pub struct TextAndVariableContentRelationV {
    pub text_node_id: Seq<char>,
    pub variable_names: Seq<Seq<char>>,
    pub content_of_element: Seq<char>,
    pub ctx: Seq<Seq<char>>,
    pub elm_loc: Seq<usize>,
}

impl View for TextAndVariableContentRelation {
    type V = TextAndVariableContentRelationV;

    open spec fn view(&self) -> TextAndVariableContentRelationV {
        TextAndVariableContentRelationV {
            text_node_id: self.text_node_id@,
            variable_names: self.variable_names.deep_view(),
            content_of_element: self.content_of_element@,
            ctx: self.ctx.deep_view(),
            elm_loc: self.elm_loc@,
        }
    }
}

/// One extracted reactive relationship, of any of the three kinds.
pub enum ElmAndReactiveInfo {
    ElmAndVariableRelation(ElmAndVariableContentRelation),
    ElmAndReactiveAttributeRelation(ElmAndReactiveAttributeRelation),
    TextAndVariableContentRelation(TextAndVariableContentRelation),
}

/// The ghost form of a reactive relationship.
#[verifier::ext_equal]
pub enum ElmAndReactiveInfoV {
    ElmAndVariableRelation(ElmAndVariableContentRelationV),
    ElmAndReactiveAttributeRelation(ElmAndReactiveAttributeRelationV),
    TextAndVariableContentRelation(TextAndVariableContentRelationV),
}

impl View for ElmAndReactiveInfo {
    type V = ElmAndReactiveInfoV;

    open spec fn view(&self) -> ElmAndReactiveInfoV {
        match self {
            ElmAndReactiveInfo::ElmAndVariableRelation(r) => ElmAndReactiveInfoV::ElmAndVariableRelation(
                r@,
            ),
            ElmAndReactiveInfo::ElmAndReactiveAttributeRelation(
                r,
            ) => ElmAndReactiveInfoV::ElmAndReactiveAttributeRelation(r@),
            ElmAndReactiveInfo::TextAndVariableContentRelation(
                r,
            ) => ElmAndReactiveInfoV::TextAndVariableContentRelation(r@),
        }
    }
}

impl DeepView for ElmAndReactiveInfo {
    type V = ElmAndReactiveInfoV;

    open spec fn deep_view(&self) -> ElmAndReactiveInfoV {
        self.view()
    }
}

/// The source position a reactive relationship is keyed by.
pub open spec fn spec_reactive_info_loc(r: ElmAndReactiveInfoV) -> Seq<usize> {
    match r {
        ElmAndReactiveInfoV::ElmAndVariableRelation(x) => x.elm_loc,
        ElmAndReactiveInfoV::ElmAndReactiveAttributeRelation(x) => x.elm_loc,
        ElmAndReactiveInfoV::TextAndVariableContentRelation(x) => x.elm_loc,
    }
}

/// The order of two reactive relationships: by source position.
pub open spec fn spec_reactive_info_le(a: ElmAndReactiveInfoV, b: ElmAndReactiveInfoV) -> bool {
    spec_loc_le(spec_reactive_info_loc(a), spec_reactive_info_loc(b))
}

/// The source position a reactive relationship is keyed by.
pub fn reactive_info_loc(x: &ElmAndReactiveInfo) -> (r: &Vec<usize>)
    ensures
        r@ == spec_reactive_info_loc(x@),
{
    match x {
        ElmAndReactiveInfo::ElmAndVariableRelation(r) => &r.elm_loc,
        ElmAndReactiveInfo::ElmAndReactiveAttributeRelation(r) => &r.elm_loc,
        ElmAndReactiveInfo::TextAndVariableContentRelation(r) => &r.elm_loc,
    }
}

/// Sorts the reactive relationships by source position, stably, fixing the
/// order of the emitted update statements.
pub fn sort_elm_and_reactive_info(v: &mut Vec<ElmAndReactiveInfo>)
    ensures
        final (v).deep_view() == spec_insertion_sort(
            old(v).deep_view(),
            |a: ElmAndReactiveInfoV, b: ElmAndReactiveInfoV| spec_reactive_info_le(a, b),
        ),
{
    let ghost le = |a: ElmAndReactiveInfoV, b: ElmAndReactiveInfoV| spec_reactive_info_le(a, b);
    let ghost orig = v.deep_view();
    let mut out: Vec<ElmAndReactiveInfo> = Vec::new();
    let ghost i: int = 0;
    proof {
        assert(orig.take(0) =~= Seq::<ElmAndReactiveInfoV>::empty());
        assert(v.deep_view() =~= orig.skip(0));
    }
    while v.len() > 0
        invariant
            0 <= i <= orig.len(),
            v.deep_view() == orig.skip(i),
            v@.len() == orig.len() - i,
            out.deep_view() == spec_insertion_sort(orig.take(i), le),
            le == (|a: ElmAndReactiveInfoV, b: ElmAndReactiveInfoV| spec_reactive_info_le(a, b)),
        decreases v@.len(),
    {
        let ghost prev = v.deep_view();
        let ghost prevv = v@;
        let x = v.remove(0);
        proof {
            assert(x == prevv[0]);
            assert(x@ == prev[0]);
            assert(x@ == orig.skip(i)[0]);
            assert(x@ == orig[i]);
            assert forall|k: int| 0 <= k < v@.len() implies #[trigger] v.deep_view()[k] == orig.skip(
                i + 1,
            )[k] by {
                assert(v@[k] == prevv.remove(0)[k]);
                assert(v@[k] == prevv[k + 1]);
                assert(v.deep_view()[k] == prev[k + 1]);
                assert(prev[k + 1] == orig.skip(i)[k + 1]);
                assert(orig.skip(i)[k + 1] == orig.skip(i + 1)[k]);
            }
            assert(v.deep_view() =~= orig.skip(i + 1));
        }
        let ghost sorted = out.deep_view();
        let mut j: usize = out.len();
        while j > 0 && !loc_le(reactive_info_loc(&out[j - 1]), reactive_info_loc(&x))
            invariant
                0 <= j <= out@.len(),
                out.deep_view() == sorted,
                x@ == orig[i],
                forall|k: int| j <= k < sorted.len() ==> !le(#[trigger] sorted[k], x@),
                le == (|a: ElmAndReactiveInfoV, b: ElmAndReactiveInfoV| spec_reactive_info_le(
                    a,
                    b,
                )),
            decreases j,
        {
            j = j - 1;
            proof {
                assert(sorted[j as int] == out@[j as int]@);
                assert(!le(sorted[j as int], x@));
            }
        }
        proof {
            if j > 0 {
                assert(sorted[j as int - 1] == out@[j as int - 1]@);
                assert(le(sorted[j as int - 1], x@));
            }
            lemma_insert_sorted_at(x@, sorted, le, j as int);
        }
        out.insert(j, x);
        proof {
            assert(out.deep_view() =~= sorted.subrange(0, j as int) + seq![orig[i]]
                + sorted.subrange(j as int, sorted.len() as int));
            assert(out.deep_view() == spec_insert_sorted(orig[i], sorted, le));
            assert(orig.take(i + 1).drop_last() =~= orig.take(i));
            assert(orig.take(i + 1).last() == orig[i]);
        }
        proof {
            i = i + 1;
        }
    }
    proof {
        assert(orig.take(orig.len() as int) =~= orig);
    }
    *v = out;
}

/// The sorted if-block ids, in order: the id list that containment masks
/// are computed against.
pub open spec fn spec_block_ids(blocks: Seq<IfBlockInfoV>) -> Seq<Seq<char>> {
    Seq::new(blocks.len(), |i: int| blocks[i].if_block_id)
}

/// Computes the containment mask of a context over the sorted if-block
/// list: the OR of `2^index` for every block whose id the context holds.
pub fn containment_mask(ctx: &Vec<String>, if_blocks_infos: &Vec<IfBlockInfo>) -> (r: u32)
    requires
        if_blocks_infos@.len() <= 32,
    ensures
        r == spec_containment(ctx.deep_view(), spec_block_ids(if_blocks_infos.deep_view())),
{
    let ghost ids = spec_block_ids(if_blocks_infos.deep_view());
    let mut mask: u32 = 0;
    let mut i: usize = 0;
    proof {
        assert(ids.take(0) =~= Seq::<Seq<char>>::empty());
    }
    while i < if_blocks_infos.len()
        invariant
            0 <= i <= if_blocks_infos@.len() <= 32,
            ids == spec_block_ids(if_blocks_infos.deep_view()),
            ids.len() == if_blocks_infos@.len(),
            mask == spec_containment(ctx.deep_view(), ids.take(i as int)),
        decreases if_blocks_infos@.len() - i,
    {
        let bit: u32 = if contains_string(ctx, if_blocks_infos[i].if_block_id.as_str()) {
            1u32 << (i as u32)
        } else {
            0u32
        };
        mask = mask | bit;
        i = i + 1;
        proof {
            assert(ids.take(i as int).drop_last() =~= ids.take(i as int - 1));
            assert(ids.take(i as int).last() == ids[i as int - 1]);
            assert(ids[i as int - 1] == if_blocks_infos.deep_view()[i as int - 1].if_block_id);
        }
    }
    proof {
        assert(ids.take(ids.len() as int) =~= ids);
    }
    mask
}

impl ElmAndVariableContentRelation {
    /// The containment mask of this relation's context over the sorted
    /// if-block list.
    pub fn generate_ctx_num(&self, if_blocks_infos: &Vec<IfBlockInfo>) -> (r: usize)
        requires
            if_blocks_infos@.len() <= 32,
        ensures
            r == spec_containment(
                self@.ctx,
                spec_block_ids(if_blocks_infos.deep_view()),
            ) as usize,
    {
        containment_mask(&self.ctx, if_blocks_infos) as usize
    }
}

impl ElmAndReactiveAttributeRelation {
    /// The containment mask of this relation's context over the sorted
    /// if-block list.
    pub fn generate_ctx_num(&self, if_blocks_infos: &Vec<IfBlockInfo>) -> (r: usize)
        requires
            if_blocks_infos@.len() <= 32,
        ensures
            r == spec_containment(
                self@.ctx,
                spec_block_ids(if_blocks_infos.deep_view()),
            ) as usize,
    {
        containment_mask(&self.ctx, if_blocks_infos) as usize
    }
}

impl TextAndVariableContentRelation {
    /// The containment mask of this relation's context over the sorted
    /// if-block list.
    pub fn generate_ctx_num(&self, if_blocks_infos: &Vec<IfBlockInfo>) -> (r: usize)
        requires
            if_blocks_infos@.len() <= 32,
        ensures
            r == spec_containment(
                self@.ctx,
                spec_block_ids(if_blocks_infos.deep_view()),
            ) as usize,
    {
        containment_mask(&self.ctx, if_blocks_infos) as usize
    }
}

impl IfBlockInfo {
    /// The containment mask of this block's context over the sorted
    /// if-block list.
    pub fn generate_ctx_num(&self, if_blocks_infos: &Vec<IfBlockInfo>) -> (r: usize)
        requires
            if_blocks_infos@.len() <= 32,
        ensures
            r == spec_containment(
                self@.ctx,
                spec_block_ids(if_blocks_infos.deep_view()),
            ) as usize,
    {
        containment_mask(&self.ctx, if_blocks_infos) as usize
    }
}

} // verus!
