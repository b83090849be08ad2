//! What a program means: the state of the interpreter, what each step does
//! to it and to the table of the store, and what running a whole program
//! leaves behind.

use vstd::prelude::*;
use crate::bytecode::{InstructionView, Operator, operator_of};
use crate::error::Error;
use crate::repository::{properties_read, property_set, vertex_created, vertices_read};
use crate::result::{ExecutionResultView, IxResultView, empty_result};
use crate::table::Table;
use crate::value::{TerminatorToken, ValueView, VertexView, as_vertices, vertex_values};

verus! {

/// The state of the interpreter between two steps.
pub struct Machine {
    /// The accumulator.
    pub result: ExecutionResultView,
    /// The streaming source that established the stream, if one has run.
    pub source: Option<Operator>,
    /// The shape that the stream has now.
    pub terminator: TerminatorToken,
}

/// The state before the first step.
pub open spec fn initial() -> Machine {
    Machine { result: empty_result(), source: None, terminator: TerminatorToken::Null }
}

/// What a step leaves in a slot.
pub open spec fn left(operator: Operator, value: ValueView) -> IxResultView {
    IxResultView { operator: Some(operator), value }
}

/// `V`: reads the stored vertices, or those that the arguments name, into
/// the slot of `V`.
pub open spec fn step_v(m: Machine, t: Table, args: Seq<ValueView>) -> Result<
    (Machine, Table),
    Error,
> {
    match vertices_read(t, args) {
        Err(e) => Err(e),
        Ok(vertices) => Ok(
            (
                Machine {
                    result: ExecutionResultView {
                        vertices: left(Operator::V, ValueView::List(vertex_values(vertices))),
                        ..m.result
                    },
                    source: Some(Operator::V),
                    terminator: TerminatorToken::Vertex,
                },
                t,
            ),
        ),
    }
}

/// `addV`: creates one vertex and adds it at the end of the list in the slot
/// of `addV`.
pub open spec fn step_add_v(m: Machine, t: Table, args: Seq<ValueView>) -> Result<
    (Machine, Table),
    Error,
> {
    match m.result.new_vertices.value {
        ValueView::List(items) => match vertex_created(t, true, args) {
            Err(e) => Err(e),
            Ok((vertex, table)) => Ok(
                (
                    Machine {
                        result: ExecutionResultView {
                            new_vertices: left(
                                Operator::AddV,
                                ValueView::List(items.push(ValueView::Vertex(vertex))),
                            ),
                            ..m.result
                        },
                        source: Some(Operator::AddV),
                        terminator: TerminatorToken::Vertex,
                    },
                    table,
                ),
            ),
        },
        _ => Err(Error::TypeConversionError),
    }
}

/// `E`: leaves no edges in the slot of `E`; the store is not read.
pub open spec fn step_e(m: Machine) -> Machine {
    Machine {
        result: ExecutionResultView { edges: left(Operator::E, ValueView::Null), ..m.result },
        source: Some(Operator::E),
        terminator: TerminatorToken::Edge,
    }
}

/// `addE`: leaves no edges in the slot of `addE`; the store is not written.
pub open spec fn step_add_e(m: Machine) -> Machine {
    Machine {
        result: ExecutionResultView {
            new_edges: left(Operator::AddE, ValueView::Null),
            ..m.result
        },
        source: Some(Operator::AddE),
        terminator: TerminatorToken::Edge,
    }
}

/// `count`: keeps the terminator that was live in the shared slot, and makes
/// the stream an integer.
pub open spec fn step_count(m: Machine) -> Machine {
    Machine {
        result: ExecutionResultView {
            other: left(Operator::Count, ValueView::Terminator(m.terminator)),
            ..m.result
        },
        source: m.source,
        terminator: TerminatorToken::Int64,
    }
}

/// The first `n` of the vertices after the property is written to each, one
/// after the other, and the table after those writes.
pub open spec fn written_all(t: Table, vertices: Seq<VertexView>, args: Seq<ValueView>, n: nat)
    -> Result<(Seq<VertexView>, Table), Error>
    decreases n,
{
    if n == 0 {
        Ok((Seq::empty(), t))
    } else {
        match written_all(t, vertices, args, (n - 1) as nat) {
            Err(e) => Err(e),
            Ok((done, table)) => match property_set(table, true, vertices[n - 1].id, args) {
                Err(e) => Err(e),
                Ok((vertex, after)) => Ok((done.push(vertex), after)),
            },
        }
    }
}

/// `property` on the stream of `V`: writes the property to every vertex in
/// the slot of `V`, in one transaction.
pub open spec fn step_property_each(m: Machine, t: Table, args: Seq<ValueView>) -> Result<
    (Machine, Table),
    Error,
> {
    match as_vertices(m.result.vertices.value) {
        None => Err(Error::TypeConversionError),
        Some(vertices) => match written_all(t, vertices, args, vertices.len()) {
            Err(e) => Err(e),
            Ok((updated, table)) => Ok(
                (
                    Machine {
                        result: ExecutionResultView {
                            other: left(
                                Operator::Property,
                                ValueView::List(vertex_values(updated)),
                            ),
                            ..m.result
                        },
                        ..m
                    },
                    table,
                ),
            ),
        },
    }
}

/// The vertex that was created last, where the slot of `addV` holds a list
/// that ends in a vertex.
pub open spec fn last_created(m: Machine) -> Result<VertexView, Error> {
    match m.result.new_vertices.value {
        ValueView::List(items) => if items.len() == 0 {
            Err(Error::NotFound)
        } else {
            match items.last() {
                ValueView::Vertex(vertex) => Ok(vertex),
                _ => Err(Error::TypeConversionError),
            }
        },
        _ => Err(Error::TypeConversionError),
    }
}

/// `property` on the stream of `addV`: folds the property into the vertex
/// that was created last.
pub open spec fn step_property_fold(m: Machine, t: Table, args: Seq<ValueView>) -> Result<
    (Machine, Table),
    Error,
> {
    match last_created(m) {
        Err(e) => Err(e),
        Ok(last) => match property_set(t, true, last.id, args) {
            Err(e) => Err(e),
            Ok((vertex, table)) => {
                let items = m.result.new_vertices.value->List_0;
                Ok(
                    (
                        Machine {
                            result: ExecutionResultView {
                                new_vertices: IxResultView {
                                    operator: m.result.new_vertices.operator,
                                    value: ValueView::List(
                                        items.update(items.len() - 1, ValueView::Vertex(vertex)),
                                    ),
                                },
                                other: left(Operator::Property, ValueView::Vertex(vertex)),
                                ..m.result
                            },
                            ..m
                        },
                        table,
                    ),
                )
            },
        },
    }
}

/// `property`: a cardinality in front declares and changes no element; else
/// the property is written to the stream of `V` or folded into the stream of
/// `addV`.
pub open spec fn step_property(m: Machine, t: Table, args: Seq<ValueView>) -> Result<
    (Machine, Table),
    Error,
> {
    if args.len() == 0 {
        Err(Error::TypeConversionError)
    } else if args[0] is Cardinality {
        Ok(
            (
                Machine {
                    result: ExecutionResultView {
                        other: left(Operator::Property, ValueView::Null),
                        ..m.result
                    },
                    ..m
                },
                t,
            ),
        )
    } else {
        match m.source {
            Some(Operator::V) => step_property_each(m, t, args),
            Some(Operator::AddV) => step_property_fold(m, t, args),
            _ => Err(Error::UnsupportedOperator),
        }
    }
}

/// The first `n` of the vertices as the store holds them, each with the
/// properties that the arguments select.
pub open spec fn read_all(t: Table, vertices: Seq<VertexView>, args: Seq<ValueView>, n: nat)
    -> Result<Seq<VertexView>, Error>
    decreases n,
{
    if n == 0 {
        Ok(Seq::empty())
    } else {
        match read_all(t, vertices, args, (n - 1) as nat) {
            Err(e) => Err(e),
            Ok(done) => match properties_read(t, vertices[n - 1].id, args) {
                Err(e) => Err(e),
                Ok(vertex) => Ok(done.push(vertex)),
            },
        }
    }
}

/// `properties` on the stream of `V`: reads the stored properties of every
/// vertex in the slot of `V`, and rewrites the slot where it held any.
pub open spec fn step_properties_each(m: Machine, t: Table, args: Seq<ValueView>) -> Result<
    (Machine, Table),
    Error,
> {
    match as_vertices(m.result.vertices.value) {
        None => Err(Error::TypeConversionError),
        Some(vertices) => match read_all(t, vertices, args, vertices.len()) {
            Err(e) => Err(e),
            Ok(read) => Ok(
                (
                    Machine {
                        result: ExecutionResultView {
                            vertices: if vertices.len() == 0 {
                                m.result.vertices
                            } else {
                                IxResultView {
                                    operator: m.result.vertices.operator,
                                    value: ValueView::List(vertex_values(read)),
                                }
                            },
                            other: left(
                                Operator::Properties,
                                ValueView::List(vertex_values(read)),
                            ),
                            ..m.result
                        },
                        source: m.source,
                        terminator: TerminatorToken::VertexProperty,
                    },
                    t,
                ),
            ),
        },
    }
}

/// `properties` on the stream of `addV`: reads the stored properties of the
/// vertex that was created last into the shared slot.
pub open spec fn step_properties_last(m: Machine, t: Table, args: Seq<ValueView>) -> Result<
    (Machine, Table),
    Error,
> {
    match last_created(m) {
        Err(e) => Err(e),
        Ok(last) => match properties_read(t, last.id, args) {
            Err(e) => Err(e),
            Ok(vertex) => Ok(
                (
                    Machine {
                        result: ExecutionResultView {
                            other: left(Operator::Properties, ValueView::Vertex(vertex)),
                            ..m.result
                        },
                        source: m.source,
                        terminator: TerminatorToken::VertexProperty,
                    },
                    t,
                ),
            ),
        },
    }
}

/// `properties`: reads the properties of the stream of `V` or of the stream
/// of `addV`.
pub open spec fn step_properties(m: Machine, t: Table, args: Seq<ValueView>) -> Result<
    (Machine, Table),
    Error,
> {
    match m.source {
        Some(Operator::V) => step_properties_each(m, t, args),
        Some(Operator::AddV) => step_properties_last(m, t, args),
        _ => Err(Error::UnsupportedOperator),
    }
}

/// The vertices with the label, in their order.
pub open spec fn labelled(vertices: Seq<VertexView>, label: Seq<char>) -> Seq<VertexView> {
    vertices.filter(|v: VertexView| v.label == label)
}

/// `hasLabel`: keeps, in the slot of `V` and in the slot of `addV` alike, the
/// vertices whose label is the argument. Without an argument nothing is
/// filtered.
pub open spec fn step_has_label(m: Machine, args: Seq<ValueView>) -> Result<Machine, Error> {
    if args.len() == 0 {
        Ok(
            Machine {
                result: ExecutionResultView {
                    other: left(Operator::HasLabel, ValueView::Null),
                    ..m.result
                },
                ..m
            },
        )
    } else {
        match (
            args[0],
            as_vertices(m.result.vertices.value),
            as_vertices(m.result.new_vertices.value),
        ) {
            (ValueView::String(label), Some(read), Some(created)) => Ok(
                Machine {
                    result: ExecutionResultView {
                        vertices: IxResultView {
                            operator: m.result.vertices.operator,
                            value: ValueView::List(vertex_values(labelled(read, label))),
                        },
                        new_vertices: IxResultView {
                            operator: m.result.new_vertices.operator,
                            value: ValueView::List(vertex_values(labelled(created, label))),
                        },
                        other: left(Operator::HasLabel, ValueView::Null),
                        ..m.result
                    },
                    ..m
                },
            ),
            _ => Err(Error::TypeConversionError),
        }
    }
}

/// What one operator does to the state and to the table.
pub open spec fn apply(operator: Operator, m: Machine, t: Table, args: Seq<ValueView>) -> Result<
    (Machine, Table),
    Error,
> {
    match operator {
        Operator::V => step_v(m, t, args),
        Operator::AddV => step_add_v(m, t, args),
        Operator::E => Ok((step_e(m), t)),
        Operator::AddE => Ok((step_add_e(m), t)),
        Operator::Count => Ok((step_count(m), t)),
        Operator::Property => step_property(m, t, args),
        Operator::Properties => step_properties(m, t, args),
        Operator::HasLabel => match step_has_label(m, args) {
            Ok(after) => Ok((after, t)),
            Err(e) => Err(e),
        },
        Operator::HasIds => Err(Error::UnsupportedOperator),
    }
}

/// What one instruction does to the state and to the table. A name outside
/// the recognized set fails with `UnsupportedOperator`.
pub open spec fn step(m: Machine, t: Table, instruction: InstructionView) -> Result<
    (Machine, Table),
    Error,
> {
    match operator_of(instruction.operator) {
        None => Err(Error::UnsupportedOperator),
        Some(operator) => apply(operator, m, t, instruction.args),
    }
}

/// Where a run stands: the state, the table, and the failure that stopped
/// it, if one did.
pub struct Outcome {
    pub machine: Machine,
    pub table: Table,
    pub failure: Option<Error>,
}

/// What running the first `n` instructions leaves behind. The instructions
/// run in order; the first that fails stops the run and changes nothing,
/// while what the instructions before it did stays.
pub open spec fn run(m: Machine, t: Table, program: Seq<InstructionView>, n: nat) -> Outcome
    decreases n,
{
    if n == 0 {
        Outcome { machine: m, table: t, failure: None }
    } else {
        let before = run(m, t, program, (n - 1) as nat);
        if before.failure is Some {
            before
        } else {
            match step(before.machine, before.table, program[n - 1]) {
                Ok((machine, table)) => Outcome { machine, table, failure: None },
                Err(e) => Outcome {
                    machine: before.machine,
                    table: before.table,
                    failure: Some(e),
                },
            }
        }
    }
}

/// A run that has failed stays as it is, however many instructions follow.
pub proof fn lemma_run_stops(m: Machine, t: Table, program: Seq<InstructionView>, i: nat, n: nat)
    requires
        i <= n,
        run(m, t, program, i).failure is Some,
    ensures
        run(m, t, program, n) == run(m, t, program, i),
    decreases n,
{
    if i < n {
        lemma_run_stops(m, t, program, i, (n - 1) as nat);
    }
}

/// A write to many vertices that has failed stays failed.
pub proof fn lemma_written_all_stops(
    t: Table,
    vertices: Seq<VertexView>,
    args: Seq<ValueView>,
    i: nat,
    n: nat,
)
    requires
        i <= n,
        written_all(t, vertices, args, i) is Err,
    ensures
        written_all(t, vertices, args, n) == written_all(t, vertices, args, i),
    decreases n,
{
    if i < n {
        lemma_written_all_stops(t, vertices, args, i, (n - 1) as nat);
    }
}

/// A read of many vertices that has failed stays failed.
pub proof fn lemma_read_all_stops(
    t: Table,
    vertices: Seq<VertexView>,
    args: Seq<ValueView>,
    i: nat,
    n: nat,
)
    requires
        i <= n,
        read_all(t, vertices, args, i) is Err,
    ensures
        read_all(t, vertices, args, n) == read_all(t, vertices, args, i),
    decreases n,
{
    if i < n {
        lemma_read_all_stops(t, vertices, args, i, (n - 1) as nat);
    }
}

} // verus!
