//! The side tables the markup transformer produces: captured-reference
//! requests, event bindings, conditional-block descriptors and manually
//! rendered text nodes, together with the compile errors, the event-target
//! classification, and the global sort that fixes emission order.

use crate::markup::{Node, NodeV};
use crate::rewrite::{append_v_to_vars, spec_append_v_text};
use crate::sorting::{
    lemma_insert_sorted_at, spec_insert_sorted, spec_insertion_sort, spec_loc_le, loc_le,
};
use crate::strutil::{
    spec_trim, spec_word_is_one_word, trim_str, word_is_one_word,
};
use vstd::prelude::*;
use vstd::string::StrSliceExecFns;
use vstd::string::StringExecFns;

verus! {

broadcast use {vstd::std_specs::vec::group_vec_axioms, vstd::seq::group_seq_axioms};

/// A single text insertion into the script, by character position.
#[derive(Debug)]
pub struct AddStringToPosition {
    pub position: u32,
    pub string: String,
}

/// The ghost form of a text insertion.
#[verifier::ext_equal]
pub struct AddStringToPositionV {
    pub position: u32,
    pub string: Seq<char>,
}

impl View for AddStringToPosition {
    type V = AddStringToPositionV;

    open spec fn view(&self) -> AddStringToPositionV {
        AddStringToPositionV { position: self.position, string: self.string@ }
    }
}

impl DeepView for AddStringToPosition {
    type V = AddStringToPositionV;

    open spec fn deep_view(&self) -> AddStringToPositionV {
        self.view()
    }
}

/// A reactive variable and the power-of-two mask assigned to it.
#[derive(Debug)]
pub struct VariableNameAndAssignedNumber {
    pub name: String,
    pub assignment: u32,
}

/// The ghost form of a reactive variable.
#[verifier::ext_equal]
pub struct VariableNameAndAssignedNumberV {
    pub name: Seq<char>,
    pub assignment: u32,
}

impl View for VariableNameAndAssignedNumber {
    type V = VariableNameAndAssignedNumberV;

    open spec fn view(&self) -> VariableNameAndAssignedNumberV {
        VariableNameAndAssignedNumberV { name: self.name@, assignment: self.assignment }
    }
}

impl DeepView for VariableNameAndAssignedNumber {
    type V = VariableNameAndAssignedNumberV;

    open spec fn deep_view(&self) -> VariableNameAndAssignedNumberV {
        self.view()
    }
}

/// An inline statement bound to an event, taking the event payload as its
/// argument.
pub struct EventBindingStatement {
    pub statement: String,
    pub arg: String,
}

/// The ghost form of an event-binding statement.
#[verifier::ext_equal]
pub struct EventBindingStatementV {
    pub statement: Seq<char>,
    pub arg: Seq<char>,
}

impl View for EventBindingStatement {
    type V = EventBindingStatementV;

    open spec fn view(&self) -> EventBindingStatementV {
        EventBindingStatementV { statement: self.statement@, arg: self.arg@ }
    }
}

/// What an event binding invokes: a named handler function, an inline
/// statement wrapped as a zero-argument callback, or an inline statement
/// wrapped as a one-argument callback.
pub enum EventTarget {
    RefToFunction(String),
    Statement(String),
    EventBindingStatement(EventBindingStatement),
}

/// The ghost form of an event target.
#[verifier::ext_equal]
pub enum EventTargetV {
    RefToFunction(Seq<char>),
    Statement(Seq<char>),
    EventBindingStatement(EventBindingStatementV),
}

impl View for EventTarget {
    type V = EventTargetV;

    open spec fn view(&self) -> EventTargetV {
        match self {
            EventTarget::RefToFunction(f) => EventTargetV::RefToFunction(f@),
            EventTarget::Statement(s) => EventTargetV::Statement(s@),
            EventTarget::EventBindingStatement(b) => EventTargetV::EventBindingStatement(b@),
        }
    }
}

/// The callback text an event target compiles to.
pub open spec fn spec_event_target_str(t: EventTargetV) -> Seq<char> {
    match t {
        EventTargetV::RefToFunction(f) => f,
        EventTargetV::Statement(s) => "()=>"@ + s,
        EventTargetV::EventBindingStatement(b) => "("@ + b.arg + ")=>"@ + b.statement,
    }
}

/// How an event-binding expression is classified: an expression ending in a
/// call's closing parenthesis is a statement; a single word names a handler
/// function; anything else is a statement whose variable references are
/// rewritten to read current values.
pub open spec fn spec_event_target_new(content: Seq<char>, vars: Seq<Seq<char>>) -> EventTargetV {
    if spec_trim(content).len() > 0 && spec_trim(content).last() == ')' {
        EventTargetV::Statement(content)
    } else if spec_word_is_one_word(content) {
        EventTargetV::RefToFunction(content)
    } else {
        EventTargetV::Statement(spec_append_v_text(content, vars))
    }
}

impl EventTarget {
    /// Classifies an event-binding expression.
    pub fn new(content: String, variables: &Vec<String>) -> (r: Self)
        ensures
            r@ == spec_event_target_new(content@, variables.deep_view()),
    {
        let trimmed = trim_str(content.as_str());
        let tn = trimmed.as_str().unicode_len();
        if tn > 0 && trimmed.as_str().get_char(tn - 1) == ')' {
            EventTarget::Statement(content)
        } else if word_is_one_word(content.as_str()) {
            EventTarget::RefToFunction(content)
        } else {
            let (rewritten, _) = append_v_to_vars(content.as_str(), variables);
            EventTarget::Statement(rewritten)
        }
    }

    /// The callback text this event target compiles to.
    pub fn to_string(&self) -> (r: String)
        ensures
            r@ == spec_event_target_str(self@),
    {
        match self {
            EventTarget::RefToFunction(f) => f.clone(),
            EventTarget::Statement(s) => {
                let mut r = String::from_str("()=>");
                r.append(s.as_str());
                proof {
                    assert(r@ =~= spec_event_target_str(self@));
                }
                r
            },
            EventTarget::EventBindingStatement(b) => {
                let mut r = String::from_str("(");
                r.append(b.arg.as_str());
                r.append(")=>");
                r.append(b.statement.as_str());
                proof {
                    assert(r@ =~= spec_event_target_str(self@));
                }
                r
            },
        }
    }
}

/// One event binding: the event name, what it invokes, and the element
/// (by stable id) it listens on.
pub struct ActionAndTarget {
    pub action_name: String,
    pub action: EventTarget,
    pub target: String,
}

/// The ghost form of an event binding.
#[verifier::ext_equal]
pub struct ActionAndTargetV {
    pub action_name: Seq<char>,
    pub action: EventTargetV,
    pub target: Seq<char>,
}

impl View for ActionAndTarget {
    type V = ActionAndTargetV;

    open spec fn view(&self) -> ActionAndTargetV {
        ActionAndTargetV { action_name: self.action_name@, action: self.action@, target: self.target@ }
    }
}

impl DeepView for ActionAndTarget {
    type V = ActionAndTargetV;

    open spec fn deep_view(&self) -> ActionAndTargetV {
        self.view()
    }
}

/// A request to capture a runtime reference: the DOM id to look up, whether
/// that id was synthesized and must be stripped after capture, the node the
/// reference belongs to, and the conditional-block context the capture must
/// happen in.
pub struct NeededIdName {
    pub id_name: String,
    pub to_delete: bool,
    pub node_id: String,
    pub ctx: Vec<String>,
}

/// The ghost form of a captured-reference request.
#[verifier::ext_equal]
pub struct NeededIdNameV {
    pub id_name: Seq<char>,
    pub to_delete: bool,
    pub node_id: Seq<char>,
    pub ctx: Seq<Seq<char>>,
}

impl View for NeededIdName {
    type V = NeededIdNameV;

    open spec fn view(&self) -> NeededIdNameV {
        NeededIdNameV {
            id_name: self.id_name@,
            to_delete: self.to_delete,
            node_id: self.node_id@,
            ctx: self.ctx.deep_view(),
        }
    }
}

impl DeepView for NeededIdName {
    type V = NeededIdNameV;

    open spec fn deep_view(&self) -> NeededIdNameV {
        self.view()
    }
}

/// Everything the generators need to know about one conditional block.
pub struct IfBlockInfo {
    pub if_block_id: String,
    pub parent_id: String,
    pub target_if_blk_id: String,
    pub distance_to_next_elm: usize,
    pub target_anchor_id: Option<String>,
    pub elm: Node,
    pub condition: String,
    pub condition_dep_vars: Vec<String>,
    pub ctx: Vec<String>,
    pub element_location: Vec<usize>,
}

/// The ghost form of a conditional block.
#[verifier::ext_equal]
pub struct IfBlockInfoV {
    pub if_block_id: Seq<char>,
    pub parent_id: Seq<char>,
    pub target_if_blk_id: Seq<char>,
    pub distance_to_next_elm: usize,
    pub target_anchor_id: Option<Seq<char>>,
    pub elm: NodeV,
    pub condition: Seq<char>,
    pub condition_dep_vars: Seq<Seq<char>>,
    pub ctx: Seq<Seq<char>>,
    pub element_location: Seq<usize>,
}

impl View for IfBlockInfo {
    type V = IfBlockInfoV;

    open spec fn view(&self) -> IfBlockInfoV {
        IfBlockInfoV {
            if_block_id: self.if_block_id@,
            parent_id: self.parent_id@,
            target_if_blk_id: self.target_if_blk_id@,
            distance_to_next_elm: self.distance_to_next_elm,
            target_anchor_id: match self.target_anchor_id {
                Some(ref s) => Some(s@),
                None => None,
            },
            elm: self.elm@,
            condition: self.condition@,
            condition_dep_vars: self.condition_dep_vars.deep_view(),
            ctx: self.ctx.deep_view(),
            element_location: self.element_location@,
        }
    }
}

impl DeepView for IfBlockInfo {
    type V = IfBlockInfoV;

    open spec fn deep_view(&self) -> IfBlockInfoV {
        self.view()
    }
}

/// A text node that must be rendered manually because it has siblings.
pub struct ManualRendererForTextNode {
    pub parent_id: String,
    pub text_node_id: String,
    pub distance_to_next_elm: usize,
    pub dep_vars: Vec<String>,
    pub content: String,
    pub ctx: Vec<String>,
    pub element_location: Vec<usize>,
    pub target_anchor_id: Option<String>,
}

/// The ghost form of a manually rendered text node.
#[verifier::ext_equal]
pub struct ManualRendererForTextNodeV {
    pub parent_id: Seq<char>,
    pub text_node_id: Seq<char>,
    pub distance_to_next_elm: usize,
    pub dep_vars: Seq<Seq<char>>,
    pub content: Seq<char>,
    pub ctx: Seq<Seq<char>>,
    pub element_location: Seq<usize>,
    pub target_anchor_id: Option<Seq<char>>,
}

impl View for ManualRendererForTextNode {
    type V = ManualRendererForTextNodeV;

    open spec fn view(&self) -> ManualRendererForTextNodeV {
        ManualRendererForTextNodeV {
            parent_id: self.parent_id@,
            text_node_id: self.text_node_id@,
            distance_to_next_elm: self.distance_to_next_elm,
            dep_vars: self.dep_vars.deep_view(),
            content: self.content@,
            ctx: self.ctx.deep_view(),
            element_location: self.element_location@,
            target_anchor_id: match self.target_anchor_id {
                Some(ref s) => Some(s@),
                None => None,
            },
        }
    }
}

impl DeepView for ManualRendererForTextNode {
    type V = ManualRendererForTextNodeV;

    open spec fn deep_view(&self) -> ManualRendererForTextNodeV {
        self.view()
    }
}

/// The compile-time failures; compilation aborts on the first one.
#[derive(Debug)]
pub enum CompileError {
    /// A one-way binding targeted `innerHtml` or `textContent`.
    UnsupportedBinding(String),
    /// A conditional attribute had no condition expression.
    MissingCondition,
    /// A one-way reactive attribute had no value.
    MissingAttributeValue(String),
    /// A two-way binding's target was not a single variable name.
    TwoWayTargetNotSimple(String),
    /// A reactive binding appeared on the root node itself.
    BindingAtRoot,
    /// More than 32 reactive variables or conditional blocks were declared.
    RegisterOverflow,
    /// No fresh synthetic element id was available.
    IdSpaceExhausted,
}

/// The ghost form of a compile error.
#[verifier::ext_equal]
pub enum CompileErrorV {
    UnsupportedBinding(Seq<char>),
    MissingCondition,
    MissingAttributeValue(Seq<char>),
    TwoWayTargetNotSimple(Seq<char>),
    BindingAtRoot,
    RegisterOverflow,
    IdSpaceExhausted,
}

impl View for CompileError {
    type V = CompileErrorV;

    open spec fn view(&self) -> CompileErrorV {
        match self {
            CompileError::UnsupportedBinding(s) => CompileErrorV::UnsupportedBinding(s@),
            CompileError::MissingCondition => CompileErrorV::MissingCondition,
            CompileError::MissingAttributeValue(s) => CompileErrorV::MissingAttributeValue(s@),
            CompileError::TwoWayTargetNotSimple(s) => CompileErrorV::TwoWayTargetNotSimple(s@),
            CompileError::BindingAtRoot => CompileErrorV::BindingAtRoot,
            CompileError::RegisterOverflow => CompileErrorV::RegisterOverflow,
            CompileError::IdSpaceExhausted => CompileErrorV::IdSpaceExhausted,
        }
    }
}

/// The message a compile error carries to the caller.
pub open spec fn spec_error_message(e: CompileErrorV) -> Seq<char> {
    match e {
        CompileErrorV::UnsupportedBinding(name) => name + " is not supported"@,
        CompileErrorV::MissingCondition => "value of :if attribute is missing"@,
        CompileErrorV::MissingAttributeValue(name) => "value of attribute :"@ + name
            + " is null"@,
        CompileErrorV::TwoWayTargetNotSimple(v) => "two-way binding target is not a variable name: "@
            + v,
        CompileErrorV::BindingAtRoot => "a reactive binding cannot appear on the root node"@,
        CompileErrorV::RegisterOverflow => "more than 32 reactive variables or conditional blocks"@,
        CompileErrorV::IdSpaceExhausted => "no fresh element id available"@,
    }
}

impl CompileError {
    /// The message this error carries to the caller.
    pub fn message(&self) -> (r: String)
        ensures
            r@ == spec_error_message(self@),
    {
        match self {
            CompileError::UnsupportedBinding(name) => {
                let mut r = name.clone();
                r.append(" is not supported");
                proof {
                    assert(r@ =~= spec_error_message(self@));
                }
                r
            },
            CompileError::MissingCondition => String::from_str(
                "value of :if attribute is missing",
            ),
            CompileError::MissingAttributeValue(name) => {
                let mut r = String::from_str("value of attribute :");
                r.append(name.as_str());
                r.append(" is null");
                proof {
                    assert(r@ =~= spec_error_message(self@));
                }
                r
            },
            CompileError::TwoWayTargetNotSimple(v) => {
                let mut r = String::from_str("two-way binding target is not a variable name: ");
                r.append(v.as_str());
                proof {
                    assert(r@ =~= spec_error_message(self@));
                }
                r
            },
            CompileError::BindingAtRoot => String::from_str(
                "a reactive binding cannot appear on the root node",
            ),
            CompileError::RegisterOverflow => String::from_str(
                "more than 32 reactive variables or conditional blocks",
            ),
            CompileError::IdSpaceExhausted => String::from_str("no fresh element id available"),
        }
    }
}

/// The order of two conditional blocks: by source position.
pub open spec fn spec_if_block_le(a: IfBlockInfoV, b: IfBlockInfoV) -> bool {
    spec_loc_le(a.element_location, b.element_location)
}

/// Sorts the conditional blocks by source position, stably, fixing the bit
/// position each block's id gets and the order of the creation routines.
pub fn sort_if_blocks(v: &mut Vec<IfBlockInfo>)
    ensures
        final (v).deep_view() == spec_insertion_sort(
            old(v).deep_view(),
            |a: IfBlockInfoV, b: IfBlockInfoV| spec_if_block_le(a, b),
        ),
{
    let ghost le = |a: IfBlockInfoV, b: IfBlockInfoV| spec_if_block_le(a, b);
    let ghost orig = v.deep_view();
    let mut out: Vec<IfBlockInfo> = Vec::new();
    let ghost i: int = 0;
    proof {
        assert(orig.take(0) =~= Seq::<IfBlockInfoV>::empty());
        assert(v.deep_view() =~= orig.skip(0));
    }
    while v.len() > 0
        invariant
            0 <= i <= orig.len(),
            v.deep_view() == orig.skip(i),
            v@.len() == orig.len() - i,
            out.deep_view() == spec_insertion_sort(orig.take(i), le),
            le == (|a: IfBlockInfoV, b: IfBlockInfoV| spec_if_block_le(a, b)),
        decreases v@.len(),
    {
        let ghost prev = v.deep_view();
        let ghost prevv = v@;
        let x = v.remove(0);
        proof {
            assert(x == prevv[0]);
            assert(x@ == prev[0]);
            assert(x@ == orig.skip(i)[0]);
            assert(x@ == orig[i]);
            assert forall|k: int| 0 <= k < v@.len() implies #[trigger] v.deep_view()[k] == orig.skip(
                i + 1,
            )[k] by {
                assert(v@[k] == prevv.remove(0)[k]);
                assert(v@[k] == prevv[k + 1]);
                assert(v.deep_view()[k] == prev[k + 1]);
                assert(prev[k + 1] == orig.skip(i)[k + 1]);
                assert(orig.skip(i)[k + 1] == orig.skip(i + 1)[k]);
            }
            assert(v.deep_view() =~= orig.skip(i + 1));
        }
        let ghost sorted = out.deep_view();
        let mut j: usize = out.len();
        while j > 0 && !loc_le(&out[j - 1].element_location, &x.element_location)
            invariant
                0 <= j <= out@.len(),
                out.deep_view() == sorted,
                x@ == orig[i],
                forall|k: int| j <= k < sorted.len() ==> !le(#[trigger] sorted[k], x@),
                le == (|a: IfBlockInfoV, b: IfBlockInfoV| spec_if_block_le(a, b)),
            decreases j,
        {
            j = j - 1;
            proof {
                assert(sorted[j as int] == out@[j as int]@);
                assert(!le(sorted[j as int], x@));
            }
        }
        proof {
            if j > 0 {
                assert(sorted[j as int - 1] == out@[j as int - 1]@);
                assert(le(sorted[j as int - 1], x@));
            }
            lemma_insert_sorted_at(x@, sorted, le, j as int);
        }
        out.insert(j, x);
        proof {
            assert(out.deep_view() =~= sorted.subrange(0, j as int) + seq![orig[i]]
                + sorted.subrange(j as int, sorted.len() as int));
            assert(out.deep_view() == spec_insert_sorted(orig[i], sorted, le));
            assert(orig.take(i + 1).drop_last() =~= orig.take(i));
            assert(orig.take(i + 1).last() == orig[i]);
        }
        proof {
            i = i + 1;
        }
    }
    proof {
        assert(orig.take(orig.len() as int) =~= orig);
    }
    *v = out;
}

} // verus!
