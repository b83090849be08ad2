//! The step executor: the interpreter that runs a program against a store,
//! step by step and in order, and hands out what the program yields.

use vstd::prelude::*;
use vstd::string::*;
use crate::bytecode::{Bytecode, Instruction, InstructionView, Operator, StepKind, classify, kind_of, operator_of};
use crate::collector::{StepCollector, collected};
use crate::error::Error;
use crate::machine::{
    Machine, Outcome, apply, initial, last_created, lemma_read_all_stops, lemma_run_stops,
    lemma_written_all_stops, read_all, run, step, step_add_e, step_add_v, step_count, step_e,
    step_has_label, step_properties, step_properties_each, step_properties_last, step_property,
    step_property_each, step_property_fold, step_v, written_all, labelled,
};
use crate::repository::{VertexRepository, failure_of};
use crate::result::{ExecutionResult, IxResult, slot_of};
use crate::storage::{DatastoreAdapter, SimpleTransaction, TransactionStatus};
use crate::table::{Table, lemma_extensional, lemma_upsert, lookup, sorted};
use crate::text::text_eq;
use crate::value::{
    TerminatorToken, Value, ValueView, Vertex, VertexView, as_vertices, lemma_list_view,
    vertex_values, vertex_views, views,
};

verus! {

/// Whether a step did what it means: on success the state and the table are
/// those that the meaning gives; on failure neither has changed, and the
/// failure is the one that the meaning gives, or `StorageFailure` where the
/// backend may fail on its own.
pub open spec fn stepped(
    before: Machine,
    table_before: Table,
    meaning: Result<(Machine, Table), Error>,
    dependable: bool,
    after: Machine,
    table_after: Table,
    done: Result<(), Error>,
) -> bool {
    match done {
        Ok(()) => meaning == Ok::<(Machine, Table), Error>((after, table_after)),
        Err(e) => {
            &&& after == before
            &&& table_after == table_before
            &&& (failure_of(meaning) == Some(e) || (e == Error::StorageFailure && !dependable))
        },
    }
}

/// Whether a run did what it means: it went through the program as `run`
/// says, or, where the backend may fail on its own, it stopped with
/// `StorageFailure` in front of an instruction that it had reached.
pub open spec fn ran(
    before: Machine,
    table_before: Table,
    program: Seq<InstructionView>,
    dependable: bool,
    after: Machine,
    table_after: Table,
    failure: Option<Error>,
) -> bool {
    ||| (Outcome { machine: after, table: table_after, failure }) == run(
        before,
        table_before,
        program,
        program.len(),
    )
    ||| {
        &&& !dependable
        &&& failure == Some(Error::StorageFailure)
        &&& exists|i: nat|
            i < program.len() && #[trigger] run(before, table_before, program, i) == (Outcome {
                machine: after,
                table: table_after,
                failure: None,
            })
    }
}

/// What a finished traversal hands out: the failure that stopped the run, or
/// the value collected from the state in which it ended.
pub open spec fn yielded(machine: Machine, failure: Option<Error>) -> Result<ValueView, Error> {
    match failure {
        Some(e) => Err(e),
        None => collected(machine.result, machine.source, machine.terminator),
    }
}

/// The one item of a traversal that yields one: the value itself where it is
/// no list, the item of a list of one. A list of any other length fails with
/// `TerminatorMismatch`.
pub open spec fn single(value: ValueView) -> Result<ValueView, Error> {
    match value {
        ValueView::List(items) => if items.len() == 1 {
            Ok(items[0])
        } else {
            Err(Error::TerminatorMismatch)
        },
        _ => Ok(value),
    }
}

/// The items of a traversal that yields a list. Any other value fails with
/// `TypeConversionError`.
pub open spec fn listed(value: ValueView) -> Result<Seq<ValueView>, Error> {
    match value {
        ValueView::List(items) => Ok(items),
        _ => Err(Error::TypeConversionError),
    }
}

/// What a result stands for.
pub open spec fn result_view(r: Result<Value, Error>) -> Result<ValueView, Error> {
    match r {
        Ok(v) => Ok(v@),
        Err(e) => Err(e),
    }
}

/// The result of `then` applied to a value, and a failure as it is.
pub open spec fn and_single(r: Result<ValueView, Error>) -> Result<ValueView, Error> {
    match r {
        Ok(v) => single(v),
        Err(e) => Err(e),
    }
}

/// The items of a yielded list, and a failure as it is.
pub open spec fn and_listed(r: Result<ValueView, Error>) -> Result<Seq<ValueView>, Error> {
    match r {
        Ok(v) => listed(v),
        Err(e) => Err(e),
    }
}

/// What one call of `next` hands out, and where the cursor stands after it:
/// the item under the cursor, which then moves on, or nothing once the cursor
/// has reached the end.
pub open spec fn next_item(items: Seq<ValueView>, cursor: nat) -> (Option<ValueView>, nat) {
    if cursor < items.len() {
        (Some(items[cursor as int]), cursor + 1)
    } else {
        (None, cursor)
    }
}

/// Whether `next` has an item left to hand out.
pub open spec fn more(items: Seq<ValueView>, cursor: nat) -> bool {
    cursor < items.len()
}

/// Whether a call evaluated the traversal: what the program yielded is kept,
/// and it is `value`. Where the program had run before, nothing has changed;
/// where it had not, it has run now, once.
pub open spec fn evaluated(
    before: &StepExecutor,
    table_before: Table,
    dependable: bool,
    after: &StepExecutor,
    table_after: Table,
    value: Result<ValueView, Error>,
) -> bool {
    &&& after.program() == before.program()
    &&& after.cached() == Some(value)
    &&& match before.cached() {
        Some(kept) => {
            &&& value == kept
            &&& after.machine() == before.machine()
            &&& table_after == table_before
        },
        None => exists|failure: Option<Error>|
            #![trigger yielded(after.machine(), failure)]
            {
                &&& ran(
                    before.machine(),
                    table_before,
                    before.program(),
                    dependable,
                    after.machine(),
                    table_after,
                    failure,
                )
                &&& value == yielded(after.machine(), failure)
            },
    }
}

/// A copy of what a program yielded.
fn clone_outcome(outcome: &Result<Value, Error>) -> (copy: Result<Value, Error>)
    ensures
        result_view(copy) == result_view(*outcome),
{
    match outcome {
        Ok(value) => Ok(value.clone()),
        Err(e) => Err(*e),
    }
}

/// Commits a transaction that was opened on the store as it is now.
fn finish<A: DatastoreAdapter>(store: &mut A, tx: &mut A::Transaction) -> (done: Result<(), Error>)
    requires
        old(store).wf(),
        old(tx).wf(),
        old(tx).status() is Open,
        old(tx).origin() == old(store).table(),
        sorted(old(tx).table()),
        forall|key: i64|
            !old(tx).touched().contains(key) ==> lookup(old(tx).table(), key) == lookup(
                old(tx).origin(),
                key,
            ),
    ensures
        final(store).wf(),
        final(store).dependable() == old(store).dependable(),
        match done {
            Ok(()) => final(store).table() == old(tx).table(),
            Err(e) => {
                &&& final(store).table() == old(store).table()
                &&& e == Error::StorageFailure
                &&& !old(store).dependable()
            },
        },
{
    let ghost seen = tx.table();
    let done = store.commit(tx);
    proof {
        if done is Ok {
            assert forall|key: i64| lookup(store.table(), key) == lookup(seen, key) by {}
            lemma_extensional(store.table(), seen);
        }
    }
    done
}

/// Gives up a transaction, whatever state it is in: an open one is rolled
/// back, a closed one stays as it ended. Afterwards it is open no more.
fn abandon<T: SimpleTransaction>(tx: &mut T)
    requires
        old(tx).wf(),
    ensures
        final(tx).wf(),
        final(tx).status() == if old(tx).status() is Open {
            TransactionStatus::RolledBack
        } else {
            old(tx).status()
        },
{
    let _ = tx.rollback();
}

/// The interpreter of one program. It runs the program once, against the
/// store it is handed, and keeps what the program yielded.
pub struct StepExecutor {
    bytecode: Bytecode,
    pub result: ExecutionResult,
    terminator: TerminatorToken,
    source: Option<Operator>,
    iter_index: usize,
    outcome: Option<Result<Value, Error>>,
}

impl StepExecutor {
    /// The state of the interpreter.
    pub closed spec fn machine(&self) -> Machine {
        Machine { result: self.result@, source: self.source, terminator: self.terminator }
    }

    /// The program.
    pub closed spec fn program(&self) -> Seq<InstructionView> {
        self.bytecode@
    }

    /// The number of items that `next` has handed out.
    pub closed spec fn cursor(&self) -> nat {
        self.iter_index as nat
    }

    /// What the program yielded, once it has run.
    pub closed spec fn cached(&self) -> Option<Result<ValueView, Error>> {
        match self.outcome {
            Some(r) => Some(result_view(r)),
            None => None,
        }
    }

    /// Whether the program, the cursor and what the program yielded are
    /// those of `other`.
    pub closed spec fn same_frame(&self, other: &StepExecutor) -> bool {
        &&& self.bytecode == other.bytecode
        &&& self.iter_index == other.iter_index
        &&& self.outcome == other.outcome
    }

    /// The interpreter of `bytecode`, before its first step.
    pub fn new(bytecode: Bytecode) -> (executor: StepExecutor)
        ensures
            executor.machine() == initial(),
            executor.program() == bytecode@,
            executor.cursor() == 0,
            executor.cached() is None,
    {
        StepExecutor {
            bytecode,
            result: ExecutionResult::new(),
            terminator: TerminatorToken::Null,
            source: None,
            iter_index: 0,
            outcome: None,
        }
    }

    /// The program.
    pub fn bytecode(&self) -> (bytecode: &Bytecode)
        ensures
            bytecode@ == self.program(),
    {
        &self.bytecode
    }

    /// The shape that the stream has now.
    pub fn terminator(&self) -> (token: TerminatorToken)
        ensures
            token == self.machine().terminator,
    {
        self.terminator
    }

    /// The streaming source that established the stream, if one has run.
    pub fn source(&self) -> (source: Option<Operator>)
        ensures
            source == self.machine().source,
    {
        self.source
    }

    /// The number of items that `next` has handed out.
    pub fn iter_index(&self) -> (index: usize)
        ensures
            index == self.cursor(),
    {
        self.iter_index
    }

    fn set_terminator(&mut self, token: TerminatorToken)
        ensures
            final(self).same_frame(old(self)),
            final(self).machine() == (Machine { terminator: token, ..old(self).machine() }),
    {
        self.terminator = token;
    }

    /// A copy of what the slot of the operator named `source` holds. A name
    /// outside the recognized set is refused with `UnsupportedOperator`.
    pub fn source_value(&self, source: &str) -> (value: Result<Value, Error>)
        ensures
            match value {
                Ok(v) => operator_of(source@) is Some && v@ == slot_of(
                    self.machine().result,
                    operator_of(source@).unwrap(),
                ).value,
                Err(e) => e == Error::UnsupportedOperator && operator_of(source@) is None,
            },
    {
        match Operator::parse(source) {
            Ok(operator) => Ok(self.result.get_from_source(operator).value.clone()),
            Err(e) => Err(e),
        }
    }

    /// The vertices in the slot of an operator.
    fn list_from_source(&self, source: Operator) -> (list: Result<Vec<Vertex>, Error>)
        ensures
            match list {
                Ok(vertices) => as_vertices(slot_of(self.machine().result, source).value) == Some(
                    vertex_views(vertices@),
                ),
                Err(e) => e == Error::TypeConversionError && as_vertices(
                    slot_of(self.machine().result, source).value,
                ) is None,
            },
    {
        self.result.get_from_source(source).value.to_vertices()
    }

    /// The vertices in the slot of an operator that have the label, as
    /// values.
    fn raw_list_from_source(&self, source: Operator, label: &str) -> (list: Result<
        Vec<Value>,
        Error,
    >)
        ensures
            match list {
                Ok(items) => {
                    let held = as_vertices(slot_of(self.machine().result, source).value);
                    held is Some && views(items@) == vertex_values(labelled(held.unwrap(), label@))
                },
                Err(e) => e == Error::TypeConversionError && as_vertices(
                    slot_of(self.machine().result, source).value,
                ) is None,
            },
    {
        let vertices = match self.list_from_source(source) {
            Ok(vertices) => vertices,
            Err(e) => {
                return Err(e);
            },
        };
        let ghost all = vertex_views(vertices@);
        let ghost wanted = |v: VertexView| v.label == label@;
        let mut kept: Vec<Value> = Vec::new();
        let mut i: usize = 0;
        assert(all.take(0) =~= Seq::empty());
        assert(views(kept@) =~= vertex_values(all.take(0).filter(wanted)));
        while i < vertices.len()
            invariant
                i <= vertices.len(),
                all == vertex_views(vertices@),
                wanted == |v: VertexView| v.label == label@,
                views(kept@) == vertex_values(all.take(i as int).filter(wanted)),
            decreases vertices.len() - i,
        {
            proof {
                assert(all.take(i + 1).drop_last() =~= all.take(i as int));
                reveal(Seq::filter);
            }
            if text_eq(vertices[i].label.as_str(), label) {
                let ghost before = views(kept@);
                kept.push(Value::Vertex(vertices[i].clone()));
                assert(views(kept@) =~= before.push(ValueView::Vertex(all[i as int])));
                assert(vertex_values(all.take(i + 1).filter(wanted)) =~= before.push(
                    ValueView::Vertex(all[i as int]),
                ));
            }
            i += 1;
        }
        assert(all.take(i as int) =~= all);
        Ok(kept)
    }

    /// `V`: reads vertices from the store. It usually starts a traversal but
    /// may stand in the middle of one.
    fn v<A: DatastoreAdapter>(&mut self, store: &mut A, args: &Vec<Value>) -> (done: Result<
        (),
        Error,
    >)
        requires
            old(store).wf(),
        ensures
            final(store).wf(),
            final(store).dependable() == old(store).dependable(),
            final(self).same_frame(old(self)),
            stepped(
                old(self).machine(),
                old(store).table(),
                step_v(old(self).machine(), old(store).table(), views(args@)),
                old(store).dependable(),
                final(self).machine(),
                final(store).table(),
                done,
            ),
    {
        let mut tx = match store.transaction(false) {
            Ok(tx) => tx,
            Err(e) => {
                return Err(e);
            },
        };
        let read = VertexRepository::read_vertices(&tx, args);
        abandon(&mut tx);
        match read {
            Ok(vertices) => {
                self.result.vertices = IxResult::new(Operator::V, Value::from_vertices(&vertices));
                self.source = Some(Operator::V);
                self.set_terminator(TerminatorToken::Vertex);
                Ok(())
            },
            Err(e) => Err(e),
        }
    }

    /// `E`: the stream becomes one of edges. The store is not read.
    fn e(&mut self, _ids: &Vec<Value>)
        ensures
            final(self).same_frame(old(self)),
            final(self).machine() == step_e(old(self).machine()),
    {
        self.result.edges = IxResult::new(Operator::E, Value::Null);
        self.source = Some(Operator::E);
        self.set_terminator(TerminatorToken::Edge);
    }

    /// `addV`: adds one vertex to the store and to the vertices that this
    /// program has created.
    fn add_v<A: DatastoreAdapter>(&mut self, store: &mut A, args: &Vec<Value>) -> (done: Result<
        (),
        Error,
    >)
        requires
            old(store).wf(),
        ensures
            final(store).wf(),
            final(store).dependable() == old(store).dependable(),
            final(self).same_frame(old(self)),
            stepped(
                old(self).machine(),
                old(store).table(),
                step_add_v(old(self).machine(), old(store).table(), views(args@)),
                old(store).dependable(),
                final(self).machine(),
                final(store).table(),
                done,
            ),
    {
        let mut vertices = match self.result.new_vertices.value.as_list() {
            Ok(vertices) => vertices,
            Err(e) => {
                return Err(e);
            },
        };
        let mut tx = match store.transaction(true) {
            Ok(tx) => tx,
            Err(e) => {
                return Err(e);
            },
        };
        let vertex = match VertexRepository::create_vertex(&mut tx, args) {
            Ok(vertex) => vertex,
            Err(e) => {
                abandon(&mut tx);
                return Err(e);
            },
        };
        proof {
            store.lemma_sorted();
            lemma_upsert(
                store.table(),
                vertex.id,
                crate::codec::encode_vertex(vertex@),
            );
        }
        match finish(store, &mut tx) {
            Ok(()) => {},
            Err(e) => {
                return Err(e);
            },
        }
        let ghost before = views(vertices@);
        vertices.push(Value::Vertex(vertex));
        proof {
            lemma_list_view(vertices);
            assert(views(vertices@) =~= before.push(ValueView::Vertex(vertex@)));
        }
        self.result.new_vertices = IxResult::new(Operator::AddV, Value::List(vertices));
        self.source = Some(Operator::AddV);
        self.set_terminator(TerminatorToken::Vertex);
        Ok(())
    }

    /// `addE`: the stream becomes one of edges. The store is not written.
    fn add_e(&mut self, _labels: &Vec<Value>)
        ensures
            final(self).same_frame(old(self)),
            final(self).machine() == step_add_e(old(self).machine()),
    {
        self.result.new_edges = IxResult::new(Operator::AddE, Value::Null);
        self.source = Some(Operator::AddE);
        self.set_terminator(TerminatorToken::Edge);
    }

    /// `count`: keeps the live terminator in the shared slot and makes the
    /// stream an integer.
    fn count(&mut self, _args: &Vec<Value>)
        ensures
            final(self).same_frame(old(self)),
            final(self).machine() == step_count(old(self).machine()),
    {
        let streamed = Value::Terminator(self.terminator);
        self.result.other = IxResult::new(Operator::Count, streamed);
        self.set_terminator(TerminatorToken::Int64);
    }

    /// `hasLabel`: keeps the vertices with the label, in the slot of `V` and
    /// in the slot of `addV`.
    fn has_label(&mut self, args: &Vec<Value>) -> (done: Result<(), Error>)
        ensures
            final(self).same_frame(old(self)),
            match done {
                Ok(()) => step_has_label(old(self).machine(), views(args@)) == Ok::<
                    Machine,
                    Error,
                >(final(self).machine()),
                Err(e) => final(self).machine() == old(self).machine() && step_has_label(
                    old(self).machine(),
                    views(args@),
                ) == Err::<Machine, Error>(e),
            },
    {
        if args.len() > 0 {
            assert(views(args@)[0] == args@[0]@);
            let label = match &args[0] {
                Value::String(label) => label,
                _ => {
                    return Err(Error::TypeConversionError);
                },
            };
            let vertices = self.raw_list_from_source(Operator::V, label.as_str());
            let new_vertices = self.raw_list_from_source(Operator::AddV, label.as_str());
            match (vertices, new_vertices) {
                (Ok(vertices), Ok(new_vertices)) => {
                    proof {
                        lemma_list_view(vertices);
                        lemma_list_view(new_vertices);
                    }
                    self.result.vertices.value = Value::List(vertices);
                    self.result.new_vertices.value = Value::List(new_vertices);
                },
                _ => {
                    return Err(Error::TypeConversionError);
                },
            }
        }
        self.result.other = IxResult::new(Operator::HasLabel, Value::Null);
        Ok(())
    }

    /// `hasIds` has no behaviour yet.
    fn has_id(&mut self, _args: &Vec<Value>) -> (done: Result<(), Error>)
        ensures
            final(self).same_frame(old(self)),
            final(self).machine() == old(self).machine(),
            done == Err::<(), Error>(Error::UnsupportedOperator),
    {
        Err(Error::UnsupportedOperator)
    }

    /// `property` with a cardinality in front: a declaration that changes no
    /// element.
    fn property_with_cardinality(&mut self, _args: &Vec<Value>)
        ensures
            final(self).same_frame(old(self)),
            final(self).machine() == (Machine {
                result: crate::result::ExecutionResultView {
                    other: crate::machine::left(Operator::Property, ValueView::Null),
                    ..old(self).machine().result
                },
                ..old(self).machine()
            }),
    {
        self.result.other = IxResult::new(Operator::Property, Value::Null);
    }

    /// `property` on the stream of `V`: writes the property to every vertex
    /// of the stream, in one transaction.
    fn vertex_property<A: DatastoreAdapter>(&mut self, store: &mut A, args: &Vec<Value>) -> (done:
        Result<(), Error>)
        requires
            old(store).wf(),
        ensures
            final(store).wf(),
            final(store).dependable() == old(store).dependable(),
            final(self).same_frame(old(self)),
            stepped(
                old(self).machine(),
                old(store).table(),
                step_property_each(old(self).machine(), old(store).table(), views(args@)),
                old(store).dependable(),
                final(self).machine(),
                final(store).table(),
                done,
            ),
    {
        let vertices = match self.list_from_source(Operator::V) {
            Ok(vertices) => vertices,
            Err(e) => {
                return Err(e);
            },
        };
        let mut tx = match store.transaction(true) {
            Ok(tx) => tx,
            Err(e) => {
                return Err(e);
            },
        };
        let ghost t = store.table();
        let ghost all = vertex_views(vertices@);
        let ghost a = views(args@);
        proof {
            store.lemma_sorted();
        }
        let mut result: Vec<Vertex> = Vec::new();
        let mut i: usize = 0;
        assert(vertex_views(result@) =~= Seq::empty());
        while i < vertices.len()
            invariant
                i <= vertices.len(),
                self.same_frame(old(self)),
                self.machine() == old(self).machine(),
                as_vertices(self.machine().result.vertices.value) == Some(all),
                store.wf(),
                store.table() == old(store).table(),
                store.dependable() == old(store).dependable(),
                t == store.table(),
                all == vertex_views(vertices@),
                a == views(args@),
                tx.wf(),
                tx.status() is Open,
                tx.read_write(),
                tx.origin() == t,
                tx.dependable() == store.dependable(),
                sorted(tx.table()),
                forall|key: i64|
                    !tx.touched().contains(key) ==> lookup(tx.table(), key) == lookup(t, key),
                written_all(t, all, a, i as nat) == Ok::<(Seq<VertexView>, Table), Error>(
                    (vertex_views(result@), tx.table()),
                ),
            decreases vertices.len() - i,
        {
            let ghost before = tx.table();
            let ghost done_before = vertex_views(result@);
            match VertexRepository::set_property(&vertices[i], &mut tx, args) {
                Ok(vertex) => {
                    proof {
                        lemma_upsert(before, vertices[i as int].id, crate::codec::encode_vertex(vertex@));
                    }
                    result.push(vertex);
                    assert(vertex_views(result@) =~= done_before.push(vertex@));
                },
                Err(e) => {
                    proof {
                        if written_all(t, all, a, (i + 1) as nat) is Err {
                            lemma_written_all_stops(t, all, a, (i + 1) as nat, all.len());
                        }
                    }
                    abandon(&mut tx);
                    return Err(e);
                },
            }
            i += 1;
        }
        match finish(store, &mut tx) {
            Ok(()) => {},
            Err(e) => {
                return Err(e);
            },
        }
        self.result.other = IxResult::new(Operator::Property, Value::from_vertices(&result));
        Ok(())
    }

    /// The vertex that this program created last.
    fn last_new_vertex(&self) -> (last: Result<Vertex, Error>)
        ensures
            match last {
                Ok(vertex) => last_created(self.machine()) == Ok::<VertexView, Error>(vertex@),
                Err(e) => last_created(self.machine()) == Err::<VertexView, Error>(e),
            },
    {
        match &self.result.new_vertices.value {
            Value::List(items) => {
                proof {
                    lemma_list_view(*items);
                }
                if items.len() == 0 {
                    return Err(Error::NotFound);
                }
                assert(views(items@).last() == items@[items.len() - 1]@);
                match &items[items.len() - 1] {
                    Value::Vertex(vertex) => Ok(vertex.clone()),
                    _ => Err(Error::TypeConversionError),
                }
            },
            _ => Err(Error::TypeConversionError),
        }
    }

    /// `property` on the stream of `addV`: folds the property into the
    /// vertex that was created last, so that a creation and the properties
    /// that follow it make one vertex.
    fn add_vertex_property<A: DatastoreAdapter>(&mut self, store: &mut A, args: &Vec<Value>) -> (done:
        Result<(), Error>)
        requires
            old(store).wf(),
        ensures
            final(store).wf(),
            final(store).dependable() == old(store).dependable(),
            final(self).same_frame(old(self)),
            stepped(
                old(self).machine(),
                old(store).table(),
                step_property_fold(old(self).machine(), old(store).table(), views(args@)),
                old(store).dependable(),
                final(self).machine(),
                final(store).table(),
                done,
            ),
    {
        let last = match self.last_new_vertex() {
            Ok(last) => last,
            Err(e) => {
                return Err(e);
            },
        };
        let mut vertices = match self.result.new_vertices.value.as_list() {
            Ok(vertices) => vertices,
            Err(e) => {
                return Err(e);
            },
        };
        let mut tx = match store.transaction(true) {
            Ok(tx) => tx,
            Err(e) => {
                return Err(e);
            },
        };
        let result = match VertexRepository::set_property(&last, &mut tx, args) {
            Ok(result) => result,
            Err(e) => {
                abandon(&mut tx);
                return Err(e);
            },
        };
        proof {
            store.lemma_sorted();
            lemma_upsert(store.table(), last.id, crate::codec::encode_vertex(result@));
        }
        match finish(store, &mut tx) {
            Ok(()) => {},
            Err(e) => {
                return Err(e);
            },
        }
        let ghost before = views(vertices@);
        let at = vertices.len() - 1;
        vertices.set(at, Value::Vertex(result.clone()));
        proof {
            lemma_list_view(vertices);
            assert(views(vertices@) =~= before.update(at as int, ValueView::Vertex(result@)));
        }
        self.result.new_vertices.value = Value::List(vertices);
        self.result.other = IxResult::new(Operator::Property, Value::Vertex(result));
        Ok(())
    }

    /// `property`: adds a property to the elements of the stream. After
    /// `addV` it is folded into the creation.
    fn property<A: DatastoreAdapter>(&mut self, store: &mut A, args: &Vec<Value>) -> (done: Result<
        (),
        Error,
    >)
        requires
            old(store).wf(),
        ensures
            final(store).wf(),
            final(store).dependable() == old(store).dependable(),
            final(self).same_frame(old(self)),
            stepped(
                old(self).machine(),
                old(store).table(),
                step_property(old(self).machine(), old(store).table(), views(args@)),
                old(store).dependable(),
                final(self).machine(),
                final(store).table(),
                done,
            ),
    {
        if args.len() == 0 {
            return Err(Error::TypeConversionError);
        }
        assert(views(args@)[0] == args@[0]@);
        if args[0].is_cardinality() {
            self.property_with_cardinality(args);
            Ok(())
        } else {
            match self.source {
                Some(Operator::V) => self.vertex_property(store, args),
                Some(Operator::AddV) => self.add_vertex_property(store, args),
                _ => Err(Error::UnsupportedOperator),
            }
        }
    }

    /// `properties` on the stream of `V`: reads the stored properties of
    /// every vertex of the stream.
    fn vertices_properties<A: DatastoreAdapter>(&mut self, store: &mut A, args: &Vec<Value>) -> (done:
        Result<(), Error>)
        requires
            old(store).wf(),
        ensures
            final(store).wf(),
            final(store).dependable() == old(store).dependable(),
            final(self).same_frame(old(self)),
            stepped(
                old(self).machine(),
                old(store).table(),
                step_properties_each(old(self).machine(), old(store).table(), views(args@)),
                old(store).dependable(),
                final(self).machine(),
                final(store).table(),
                done,
            ),
    {
        let vertices = match self.list_from_source(Operator::V) {
            Ok(vertices) => vertices,
            Err(e) => {
                return Err(e);
            },
        };
        let mut tx = match store.transaction(false) {
            Ok(tx) => tx,
            Err(e) => {
                return Err(e);
            },
        };
        let ghost t = store.table();
        let ghost all = vertex_views(vertices@);
        let ghost a = views(args@);
        let mut result: Vec<Vertex> = Vec::new();
        let mut i: usize = 0;
        assert(vertex_views(result@) =~= Seq::empty());
        while i < vertices.len()
            invariant
                i <= vertices.len(),
                self.same_frame(old(self)),
                self.machine() == old(self).machine(),
                as_vertices(self.machine().result.vertices.value) == Some(all),
                store.wf(),
                store.table() == old(store).table(),
                store.dependable() == old(store).dependable(),
                t == store.table(),
                all == vertex_views(vertices@),
                a == views(args@),
                tx.wf(),
                tx.status() is Open,
                tx.table() == t,
                tx.dependable() == store.dependable(),
                read_all(t, all, a, i as nat) == Ok::<Seq<VertexView>, Error>(
                    vertex_views(result@),
                ),
            decreases vertices.len() - i,
        {
            let ghost done_before = vertex_views(result@);
            match VertexRepository::read_properties(&vertices[i], &tx, args) {
                Ok(vertex) => {
                    result.push(vertex);
                    assert(vertex_views(result@) =~= done_before.push(vertex@));
                },
                Err(e) => {
                    proof {
                        if read_all(t, all, a, (i + 1) as nat) is Err {
                            lemma_read_all_stops(t, all, a, (i + 1) as nat, all.len());
                        }
                    }
                    abandon(&mut tx);
                    return Err(e);
                },
            }
            i += 1;
        }
        abandon(&mut tx);
        if vertices.len() > 0 {
            self.result.vertices.value = Value::from_vertices(&result);
        }
        self.result.other = IxResult::new(Operator::Properties, Value::from_vertices(&result));
        self.set_terminator(TerminatorToken::VertexProperty);
        Ok(())
    }

    /// `properties` on the stream of `addV`: reads the stored properties of
    /// the vertex that was created last.
    fn new_vertex_properties<A: DatastoreAdapter>(&mut self, store: &mut A, args: &Vec<Value>) -> (done:
        Result<(), Error>)
        requires
            old(store).wf(),
        ensures
            final(store).wf(),
            final(store).dependable() == old(store).dependable(),
            final(self).same_frame(old(self)),
            stepped(
                old(self).machine(),
                old(store).table(),
                step_properties_last(old(self).machine(), old(store).table(), views(args@)),
                old(store).dependable(),
                final(self).machine(),
                final(store).table(),
                done,
            ),
    {
        let last = match self.last_new_vertex() {
            Ok(last) => last,
            Err(e) => {
                return Err(e);
            },
        };
        let mut tx = match store.transaction(false) {
            Ok(tx) => tx,
            Err(e) => {
                return Err(e);
            },
        };
        let read = VertexRepository::read_properties(&last, &tx, args);
        abandon(&mut tx);
        match read {
            Ok(vertex) => {
                self.result.other = IxResult::new(Operator::Properties, Value::Vertex(vertex));
                self.set_terminator(TerminatorToken::VertexProperty);
                Ok(())
            },
            Err(e) => Err(e),
        }
    }

    /// `properties`: reads the properties of the elements of the stream.
    fn properties<A: DatastoreAdapter>(&mut self, store: &mut A, args: &Vec<Value>) -> (done: Result<
        (),
        Error,
    >)
        requires
            old(store).wf(),
        ensures
            final(store).wf(),
            final(store).dependable() == old(store).dependable(),
            final(self).same_frame(old(self)),
            stepped(
                old(self).machine(),
                old(store).table(),
                step_properties(old(self).machine(), old(store).table(), views(args@)),
                old(store).dependable(),
                final(self).machine(),
                final(store).table(),
                done,
            ),
    {
        match self.source {
            Some(Operator::V) => self.vertices_properties(store, args),
            Some(Operator::AddV) => self.new_vertex_properties(store, args),
            _ => Err(Error::UnsupportedOperator),
        }
    }

    /// Runs a step that establishes the stream: `V`, `E`, `addV` or `addE`.
    /// Any other instruction is refused with `UnsupportedOperator`.
    fn process_streaming_step<A: DatastoreAdapter>(&mut self, store: &mut A, step: &Instruction) -> (done:
        Result<(), Error>)
        requires
            old(store).wf(),
        ensures
            final(store).wf(),
            final(store).dependable() == old(store).dependable(),
            final(self).same_frame(old(self)),
            match operator_of(step@.operator) {
                Some(operator) if kind_of(operator) is StreamingSource => stepped(
                    old(self).machine(),
                    old(store).table(),
                    apply(operator, old(self).machine(), old(store).table(), step@.args),
                    old(store).dependable(),
                    final(self).machine(),
                    final(store).table(),
                    done,
                ),
                _ => {
                    &&& done == Err::<(), Error>(Error::UnsupportedOperator)
                    &&& final(self).machine() == old(self).machine()
                    &&& final(store).table() == old(store).table()
                },
            },
    {
        let args = step.args();
        match Operator::parse(step.operator().as_str()) {
            Ok(Operator::V) => self.v(store, args),
            Ok(Operator::E) => {
                self.e(args);
                Ok(())
            },
            Ok(Operator::AddV) => self.add_v(store, args),
            Ok(Operator::AddE) => {
                self.add_e(args);
                Ok(())
            },
            _ => Err(Error::UnsupportedOperator),
        }
    }

    /// Runs a step that collapses the stream: `count`. Any other instruction
    /// is refused with `UnsupportedOperator`.
    fn process_reducing_barrier_step(&mut self, step: &Instruction) -> (done: Result<(), Error>)
        ensures
            final(self).same_frame(old(self)),
            match operator_of(step@.operator) {
                Some(operator) if kind_of(operator) is ReducingBarrier => {
                    &&& done is Ok
                    &&& final(self).machine() == step_count(old(self).machine())
                },
                _ => {
                    &&& done == Err::<(), Error>(Error::UnsupportedOperator)
                    &&& final(self).machine() == old(self).machine()
                },
            },
    {
        let args = step.args();
        match Operator::parse(step.operator().as_str()) {
            Ok(Operator::Count) => {
                self.count(args);
                Ok(())
            },
            _ => Err(Error::UnsupportedOperator),
        }
    }

    /// Runs a step that works on the elements of the stream: `property`,
    /// `properties`, `hasLabel` or `hasIds`. Any other instruction is refused
    /// with `UnsupportedOperator`.
    fn process_step<A: DatastoreAdapter>(&mut self, store: &mut A, step: &Instruction) -> (done:
        Result<(), Error>)
        requires
            old(store).wf(),
        ensures
            final(store).wf(),
            final(store).dependable() == old(store).dependable(),
            final(self).same_frame(old(self)),
            match operator_of(step@.operator) {
                Some(operator) if kind_of(operator) is Elementwise => stepped(
                    old(self).machine(),
                    old(store).table(),
                    apply(operator, old(self).machine(), old(store).table(), step@.args),
                    old(store).dependable(),
                    final(self).machine(),
                    final(store).table(),
                    done,
                ),
                _ => {
                    &&& done == Err::<(), Error>(Error::UnsupportedOperator)
                    &&& final(self).machine() == old(self).machine()
                    &&& final(store).table() == old(store).table()
                },
            },
    {
        let args = step.args();
        match Operator::parse(step.operator().as_str()) {
            Ok(Operator::Property) => self.property(store, args),
            Ok(Operator::Properties) => self.properties(store, args),
            Ok(Operator::HasLabel) => self.has_label(args),
            Ok(Operator::HasIds) => self.has_id(args),
            _ => Err(Error::UnsupportedOperator),
        }
    }

    /// Runs one instruction: classifies its operator and hands it to the
    /// function for its kind. On failure neither the state nor the store has
    /// changed.
    pub fn step<A: DatastoreAdapter>(&mut self, store: &mut A, instruction: &Instruction) -> (done:
        Result<(), Error>)
        requires
            old(store).wf(),
        ensures
            final(store).wf(),
            final(store).dependable() == old(store).dependable(),
            final(self).same_frame(old(self)),
            stepped(
                old(self).machine(),
                old(store).table(),
                step(old(self).machine(), old(store).table(), instruction@),
                old(store).dependable(),
                final(self).machine(),
                final(store).table(),
                done,
            ),
    {
        match classify(instruction.operator().as_str()) {
            Ok(StepKind::StreamingSource) => self.process_streaming_step(store, instruction),
            Ok(StepKind::ReducingBarrier) => self.process_reducing_barrier_step(instruction),
            Ok(StepKind::Elementwise) => self.process_step(store, instruction),
            Err(e) => Err(e),
        }
    }

    /// Runs the program from its first instruction to its last, or to the
    /// first that fails. Returns the failure, if there was one.
    fn run_steps<A: DatastoreAdapter>(&mut self, store: &mut A) -> (failure: Option<Error>)
        requires
            old(store).wf(),
        ensures
            final(store).wf(),
            final(store).dependable() == old(store).dependable(),
            final(self).same_frame(old(self)),
            ran(
                old(self).machine(),
                old(store).table(),
                old(self).program(),
                old(store).dependable(),
                final(self).machine(),
                final(store).table(),
                failure,
            ),
    {
        let bytecode = self.bytecode.clone();
        let steps = bytecode.steps();
        let ghost m = self.machine();
        let ghost t = store.table();
        let ghost program = self.program();
        let mut i: usize = 0;
        while i < steps.len()
            invariant
                i <= steps.len(),
                store.wf(),
                store.dependable() == old(store).dependable(),
                self.same_frame(old(self)),
                m == old(self).machine(),
                t == old(store).table(),
                program == old(self).program(),
                program == crate::bytecode::instruction_views(steps@),
                run(m, t, program, i as nat) == (Outcome {
                    machine: self.machine(),
                    table: store.table(),
                    failure: None,
                }),
            decreases steps.len() - i,
        {
            assert(program[i as int] == steps@[i as int]@);
            match self.step(store, &steps[i]) {
                Ok(()) => {},
                Err(e) => {
                    proof {
                        if failure_of(step(self.machine(), store.table(), program[i as int]))
                            == Some(e) {
                            lemma_run_stops(m, t, program, (i + 1) as nat, program.len());
                        }
                    }
                    return Some(e);
                },
            }
            i += 1;
        }
        None
    }

    /// Runs the program and collects what it yields.
    fn execute<A: DatastoreAdapter>(&mut self, store: &mut A) -> (value: Result<Value, Error>)
        requires
            old(store).wf(),
        ensures
            final(store).wf(),
            final(store).dependable() == old(store).dependable(),
            final(self).same_frame(old(self)),
            exists|failure: Option<Error>|
                #![trigger yielded(final(self).machine(), failure)]
                {
                    &&& ran(
                        old(self).machine(),
                        old(store).table(),
                        old(self).program(),
                        old(store).dependable(),
                        final(self).machine(),
                        final(store).table(),
                        failure,
                    )
                    &&& result_view(value) == yielded(final(self).machine(), failure)
                },
    {
        let failure = self.run_steps(store);
        let value = match failure {
            Some(e) => Err(e),
            None => {
                let collector = StepCollector::new(self.result.clone(), self.source);
                collector.collect(&self.terminator)
            },
        };
        assert(result_view(value) == yielded(self.machine(), failure));
        value
    }

    /// What the program yields. The program runs at the first call and never
    /// again: every later call hands out what the first one kept.
    fn evaluate<A: DatastoreAdapter>(&mut self, store: &mut A) -> (value: Result<Value, Error>)
        requires
            old(store).wf(),
        ensures
            final(store).wf(),
            final(store).dependable() == old(store).dependable(),
            final(self).cursor() == old(self).cursor(),
            evaluated(
                old(self),
                old(store).table(),
                old(store).dependable(),
                final(self),
                final(store).table(),
                result_view(value),
            ),
    {
        match &self.outcome {
            Some(kept) => {
                return clone_outcome(kept);
            },
            None => {},
        }
        let value = self.execute(store);
        self.outcome = Some(clone_outcome(&value));
        value
    }

    /// The one item that the traversal yields: the value itself where it is
    /// no list, the item of a list of one.
    pub fn done<A: DatastoreAdapter>(&mut self, store: &mut A) -> (item: Result<Value, Error>)
        requires
            old(store).wf(),
        ensures
            final(store).wf(),
            final(store).dependable() == old(store).dependable(),
            final(self).cursor() == old(self).cursor(),
            final(self).cached() is Some,
            evaluated(
                old(self),
                old(store).table(),
                old(store).dependable(),
                final(self),
                final(store).table(),
                final(self).cached().unwrap(),
            ),
            result_view(item) == and_single(final(self).cached().unwrap()),
    {
        match self.evaluate(store) {
            Err(e) => Err(e),
            Ok(Value::List(items)) => {
                proof {
                    lemma_list_view(items);
                }
                if items.len() == 1 {
                    Ok(items[0].clone())
                } else {
                    Err(Error::TerminatorMismatch)
                }
            },
            Ok(value) => Ok(value),
        }
    }

    /// The items that the traversal yields, in order.
    pub fn to_list<A: DatastoreAdapter>(&mut self, store: &mut A) -> (list: Result<Vec<Value>, Error>)
        requires
            old(store).wf(),
        ensures
            final(store).wf(),
            final(store).dependable() == old(store).dependable(),
            final(self).cursor() == old(self).cursor(),
            final(self).cached() is Some,
            evaluated(
                old(self),
                old(store).table(),
                old(store).dependable(),
                final(self),
                final(store).table(),
                final(self).cached().unwrap(),
            ),
            match list {
                Ok(items) => and_listed(final(self).cached().unwrap()) == Ok::<
                    Seq<ValueView>,
                    Error,
                >(views(items@)),
                Err(e) => and_listed(final(self).cached().unwrap()) == Err::<
                    Seq<ValueView>,
                    Error,
                >(e),
            },
    {
        match self.evaluate(store) {
            Err(e) => Err(e),
            Ok(Value::List(items)) => {
                proof {
                    lemma_list_view(items);
                }
                Ok(items)
            },
            Ok(_) => Err(Error::TypeConversionError),
        }
    }

    /// The item under the cursor, which then moves on; nothing once every
    /// item has been handed out.
    pub fn next<A: DatastoreAdapter>(&mut self, store: &mut A) -> (item: Result<Option<Value>, Error>)
        requires
            old(store).wf(),
        ensures
            final(store).wf(),
            final(store).dependable() == old(store).dependable(),
            final(self).cached() is Some,
            evaluated(
                old(self),
                old(store).table(),
                old(store).dependable(),
                final(self),
                final(store).table(),
                final(self).cached().unwrap(),
            ),
            match and_listed(final(self).cached().unwrap()) {
                Ok(items) => {
                    &&& final(self).cursor() == next_item(items, old(self).cursor()).1
                    &&& match item {
                        Ok(Some(value)) => next_item(items, old(self).cursor()).0 == Some(value@),
                        Ok(None) => next_item(items, old(self).cursor()).0 is None,
                        Err(_) => false,
                    }
                },
                Err(e) => item == Err::<Option<Value>, Error>(e) && final(self).cursor() == old(
                    self,
                ).cursor(),
            },
    {
        let list = match self.to_list(store) {
            Ok(list) => list,
            Err(e) => {
                return Err(e);
            },
        };
        if self.iter_index < list.len() {
            let item = list[self.iter_index].clone();
            self.iter_index += 1;
            Ok(Some(item))
        } else {
            Ok(None)
        }
    }

    /// Whether `next` has an item left to hand out.
    pub fn has_next<A: DatastoreAdapter>(&mut self, store: &mut A) -> (answer: Result<bool, Error>)
        requires
            old(store).wf(),
        ensures
            final(store).wf(),
            final(store).dependable() == old(store).dependable(),
            final(self).cursor() == old(self).cursor(),
            final(self).cached() is Some,
            evaluated(
                old(self),
                old(store).table(),
                old(store).dependable(),
                final(self),
                final(store).table(),
                final(self).cached().unwrap(),
            ),
            match and_listed(final(self).cached().unwrap()) {
                Ok(items) => answer == Ok::<bool, Error>(more(items, old(self).cursor())),
                Err(e) => answer == Err::<bool, Error>(e),
            },
    {
        let list = match self.to_list(store) {
            Ok(list) => list,
            Err(e) => {
                return Err(e);
            },
        };
        Ok(self.iter_index < list.len())
    }
}

} // verus!
