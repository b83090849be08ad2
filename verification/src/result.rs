//! The accumulator of a traversal: one slot for each origin of results.

use vstd::prelude::*;
use crate::bytecode::Operator;
use crate::value::{Value, ValueView, lemma_list_view, views};

verus! {

/// What one step left behind: the operator that produced it, and the value.
#[derive(Debug, PartialEq, Eq)]
pub struct IxResult {
    pub operator: Option<Operator>,
    pub value: Value,
}

/// What an `IxResult` stands for.
pub struct IxResultView {
    pub operator: Option<Operator>,
    pub value: ValueView,
}

/// The slot that no step has filled: no operator, and the empty list.
pub open spec fn empty_slot() -> IxResultView {
    IxResultView { operator: None, value: ValueView::List(Seq::empty()) }
}

impl View for IxResult {
    type V = IxResultView;

    open spec fn view(&self) -> IxResultView {
        IxResultView { operator: self.operator, value: self.value@ }
    }
}

impl Clone for IxResult {
    fn clone(&self) -> (copy: IxResult)
        ensures
            copy@ == self@,
    {
        IxResult { operator: self.operator, value: self.value.clone() }
    }
}

impl IxResult {
    /// What `operator` left behind.
    pub fn new(operator: Operator, value: Value) -> (slot: IxResult)
        ensures
            slot@ == (IxResultView { operator: Some(operator), value: value@ }),
    {
        IxResult { operator: Some(operator), value }
    }

    /// The slot that no step has filled.
    pub fn empty() -> (slot: IxResult)
        ensures
            slot@ == empty_slot(),
    {
        let items: Vec<Value> = Vec::new();
        proof {
            lemma_list_view(items);
            assert(views(items@) =~= Seq::empty());
        }
        IxResult { operator: None, value: Value::List(items) }
    }
}

/// The accumulator: what the steps of each origin left behind.
#[derive(Debug, PartialEq, Eq)]
pub struct ExecutionResult {
    /// The vertices that `V` read.
    pub vertices: IxResult,
    /// The vertices that `addV` created.
    pub new_vertices: IxResult,
    /// The slot of `E`.
    pub edges: IxResult,
    /// The slot of `addE`.
    pub new_edges: IxResult,
    /// What the last step that is no streaming source left behind.
    pub other: IxResult,
}

/// What an `ExecutionResult` stands for.
pub struct ExecutionResultView {
    pub vertices: IxResultView,
    pub new_vertices: IxResultView,
    pub edges: IxResultView,
    pub new_edges: IxResultView,
    pub other: IxResultView,
}

/// The accumulator in which no slot is filled.
pub open spec fn empty_result() -> ExecutionResultView {
    ExecutionResultView {
        vertices: empty_slot(),
        new_vertices: empty_slot(),
        edges: empty_slot(),
        new_edges: empty_slot(),
        other: empty_slot(),
    }
}

/// The slot that belongs to an operator: its own for each streaming source,
/// the shared one for every other operator.
pub open spec fn slot_of(result: ExecutionResultView, operator: Operator) -> IxResultView {
    match operator {
        Operator::V => result.vertices,
        Operator::AddV => result.new_vertices,
        Operator::E => result.edges,
        Operator::AddE => result.new_edges,
        _ => result.other,
    }
}

impl View for ExecutionResult {
    type V = ExecutionResultView;

    open spec fn view(&self) -> ExecutionResultView {
        ExecutionResultView {
            vertices: self.vertices@,
            new_vertices: self.new_vertices@,
            edges: self.edges@,
            new_edges: self.new_edges@,
            other: self.other@,
        }
    }
}

impl Clone for ExecutionResult {
    fn clone(&self) -> (copy: ExecutionResult)
        ensures
            copy@ == self@,
    {
        ExecutionResult {
            vertices: self.vertices.clone(),
            new_vertices: self.new_vertices.clone(),
            edges: self.edges.clone(),
            new_edges: self.new_edges.clone(),
            other: self.other.clone(),
        }
    }
}

impl ExecutionResult {
    /// The accumulator in which no slot is filled.
    pub fn new() -> (result: ExecutionResult)
        ensures
            result@ == empty_result(),
    {
        ExecutionResult {
            vertices: IxResult::empty(),
            new_vertices: IxResult::empty(),
            edges: IxResult::empty(),
            new_edges: IxResult::empty(),
            other: IxResult::empty(),
        }
    }

    /// The slot that belongs to an operator.
    pub fn get_from_source(&self, operator: Operator) -> (slot: &IxResult)
        ensures
            slot@ == slot_of(self@, operator),
    {
        match operator {
            Operator::V => &self.vertices,
            Operator::AddV => &self.new_vertices,
            Operator::E => &self.edges,
            Operator::AddE => &self.new_edges,
            _ => &self.other,
        }
    }
}

} // verus!
