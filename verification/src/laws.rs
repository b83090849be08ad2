//! Laws of the engine: what holds of every program, every store and every
//! vertex, proved from the meaning of the steps.

use vstd::prelude::*;
use crate::bytecode::{InstructionView, Operator, kind_of, operator_of};
use crate::codec::{decode_vertex, encode_vertex, vertex_fits};
use crate::collector::collected;
use crate::error::Error;
use crate::exec::{more, next_item};
use crate::machine::{Machine, initial, labelled, run, step, step_add_v, step_has_label};
use crate::repository::{
    all_decode, id_filter, property_set, stored_vertex, stored_vertices, vertex_created,
    vertices_read,
};
use crate::result::{empty_slot, slot_of};
use crate::roundtrip::lemma_vertex_roundtrip;
use crate::storage::{conflicts, merged};
use crate::table::{Table, holds, lemma_position_unique, lemma_upsert, lookup, sorted, splits};
use crate::value::{
    Cardinality, PropertyValueView, PropertyView, TerminatorToken, ValueView, VertexView,
    as_vertices, vertex_values,
};
use crate::vertex::{
    distinct_keys, has_key, is_first_with_key, key_index, lemma_key_index, values_of,
    with_property, written,
};

verus! {

/// Where some property has the key, there is a first one.
pub proof fn lemma_first_exists(ps: Seq<PropertyView>, key: Seq<char>, i: int)
    requires
        0 <= i < ps.len(),
        ps[i].key == key,
    ensures
        is_first_with_key(ps, key, key_index(ps, key)),
        key_index(ps, key) <= i,
    decreases i,
{
    if exists|j: int| 0 <= j < i && (#[trigger] ps[j]).key == key {
        let j = choose|j: int| 0 <= j < i && (#[trigger] ps[j]).key == key;
        lemma_first_exists(ps, key, j);
    } else {
        assert(is_first_with_key(ps, key, i));
        lemma_key_index(ps, key, i);
    }
}

/// A write is read back: after it the key is there, and it holds the one
/// value where it was new, else its former values rewritten as the
/// cardinality says. Every other key holds what it held, and keys that were
/// distinct stay distinct.
pub proof fn lemma_with_property(
    ps: Seq<PropertyView>,
    cardinality: Cardinality,
    key: Seq<char>,
    value: PropertyValueView,
)
    ensures
        has_key(with_property(ps, cardinality, key, value), key),
        values_of(with_property(ps, cardinality, key, value), key) == if has_key(ps, key) {
            written(values_of(ps, key), cardinality, value)
        } else {
            seq![value]
        },
        forall|other: Seq<char>|
            other != key ==> #[trigger] values_of(
                with_property(ps, cardinality, key, value),
                other,
            ) == values_of(ps, other),
        distinct_keys(ps) ==> distinct_keys(with_property(ps, cardinality, key, value)),
{
    let after = with_property(ps, cardinality, key, value);
    if has_key(ps, key) {
        let w = choose|i: int| 0 <= i < ps.len() && (#[trigger] ps[i]).key == key;
        lemma_first_exists(ps, key, w);
        let i = key_index(ps, key);
        assert(after[i].key == key);
        assert(is_first_with_key(after, key, i)) by {
            assert forall|j: int| 0 <= j < i implies (#[trigger] after[j]).key != key by {
                assert(ps[j].key != key);
            }
        }
        lemma_key_index(after, key, i);
    } else {
        let i = ps.len() as int;
        assert(after[i].key == key);
        assert(is_first_with_key(after, key, i)) by {
            assert forall|j: int| 0 <= j < i implies (#[trigger] after[j]).key != key by {
                assert(ps[j].key != key);
            }
        }
        lemma_key_index(after, key, i);
    }
    assert forall|other: Seq<char>| other != key implies #[trigger] values_of(after, other)
        == values_of(ps, other) by {
        if has_key(ps, other) {
            let w = choose|i: int| 0 <= i < ps.len() && (#[trigger] ps[i]).key == other;
            lemma_first_exists(ps, other, w);
            let i = key_index(ps, other);
            assert(after[i] == ps[i]);
            assert(is_first_with_key(after, other, i)) by {
                assert forall|j: int| 0 <= j < i implies (#[trigger] after[j]).key != other by {
                    assert(ps[j].key != other);
                }
            }
            lemma_key_index(after, other, i);
        } else {
            if has_key(after, other) {
                let w = choose|i: int| 0 <= i < after.len() && (#[trigger] after[i]).key == other;
                if w < ps.len() {
                    assert(ps[w].key == other);
                }
            }
        }
    }
    if distinct_keys(ps) {
        assert forall|i: int, j: int| 0 <= i < j < after.len() implies after[i].key
            != after[j].key by {
            if j < ps.len() {
                assert(ps[i].key != ps[j].key);
                if has_key(ps, key) {
                    let k = key_index(ps, key);
                    assert(after[i].key == ps[i].key);
                    assert(after[j].key == ps[j].key);
                }
            } else {
                assert(ps[i].key != key);
            }
        }
    }
}

/// Two writes with cardinality `List` keep both values, in the order in
/// which they were written, behind what the key held.
pub proof fn lemma_list_keeps_both(
    ps: Seq<PropertyView>,
    key: Seq<char>,
    first: PropertyValueView,
    second: PropertyValueView,
)
    ensures
        values_of(
            with_property(
                with_property(ps, Cardinality::List, key, first),
                Cardinality::List,
                key,
                second,
            ),
            key,
        ) == values_of(ps, key).push(first).push(second),
{
    let once = with_property(ps, Cardinality::List, key, first);
    lemma_with_property(ps, Cardinality::List, key, first);
    lemma_with_property(once, Cardinality::List, key, second);
    assert(seq![first] =~= Seq::<PropertyValueView>::empty().push(first));
}

/// Two writes with cardinality `Single` keep the later value only.
pub proof fn lemma_single_keeps_latest(
    ps: Seq<PropertyView>,
    key: Seq<char>,
    first: PropertyValueView,
    second: PropertyValueView,
)
    ensures
        values_of(
            with_property(
                with_property(ps, Cardinality::Single, key, first),
                Cardinality::Single,
                key,
                second,
            ),
            key,
        ) == seq![second],
{
    let once = with_property(ps, Cardinality::Single, key, first);
    lemma_with_property(ps, Cardinality::Single, key, first);
    lemma_with_property(once, Cardinality::Single, key, second);
}

/// A write with cardinality `Distinct` of a value that the key holds
/// changes nothing under the key.
pub proof fn lemma_distinct_keeps_one(
    ps: Seq<PropertyView>,
    key: Seq<char>,
    value: PropertyValueView,
)
    requires
        values_of(ps, key).contains(value),
    ensures
        values_of(with_property(ps, Cardinality::Distinct, key, value), key) == values_of(ps, key),
{
    lemma_with_property(ps, Cardinality::Distinct, key, value);
}

/// A property write is read back from the store: the vertex that the write
/// returns is the vertex that the table then stores under the identifier.
pub proof fn lemma_property_set_reads_back(t: Table, id: i64, args: Seq<ValueView>)
    requires
        sorted(t),
        property_set(t, true, id, args) is Ok,
        vertex_fits(property_set(t, true, id, args)->Ok_0.0),
    ensures
        stored_vertex(property_set(t, true, id, args)->Ok_0.1, id) == Ok::<VertexView, Error>(
            property_set(t, true, id, args)->Ok_0.0,
        ),
{
    let (vertex, after) = property_set(t, true, id, args)->Ok_0;
    lemma_upsert(t, id, encode_vertex(vertex));
    lemma_vertex_roundtrip(vertex);
}

/// The identifier of a created vertex is new: the table held nothing under
/// it, holds the record of the vertex under it afterwards, and reads under
/// every other key as before. The created vertex is the last of the table.
pub proof fn lemma_created_is_new(t: Table, args: Seq<ValueView>)
    requires
        sorted(t),
        vertex_created(t, true, args) is Ok,
    ensures
        ({
            let (vertex, after) = vertex_created(t, true, args)->Ok_0;
            &&& !holds(t, vertex.id)
            &&& forall|i: int| 0 <= i < t.len() ==> (#[trigger] t[i]).0 < vertex.id
            &&& sorted(after)
            &&& after == t.push((vertex.id, encode_vertex(vertex)))
            &&& lookup(after, vertex.id) == Some(encode_vertex(vertex))
            &&& forall|other: i64|
                other != vertex.id ==> #[trigger] lookup(after, other) == lookup(t, other)
        }),
{
    let (vertex, after) = vertex_created(t, true, args)->Ok_0;
    let id = vertex.id;
    assert forall|i: int| 0 <= i < t.len() implies (#[trigger] t[i]).0 < id by {
        if i < t.len() - 1 {
            assert(t[i].0 < t[t.len() - 1].0);
        }
    }
    assert(splits(t, id, t.len() as int));
    lemma_position_unique(t, id, t.len() as int);
    lemma_upsert(t, id, encode_vertex(vertex));
    assert(after =~= t.push((id, encode_vertex(vertex))));
}

/// A filter that every item passes keeps the sequence as it is.
proof fn lemma_filter_keeps_all(vertices: Seq<VertexView>, wanted: spec_fn(VertexView) -> bool)
    requires
        forall|i: int| 0 <= i < vertices.len() ==> wanted(#[trigger] vertices[i]),
    ensures
        vertices.filter(wanted) == vertices,
    decreases vertices.len(),
{
    reveal(Seq::filter);
    if vertices.len() > 0 {
        assert forall|i: int| 0 <= i < vertices.drop_last().len() implies wanted(
            #[trigger] vertices.drop_last()[i],
        ) by {
            assert(vertices.drop_last()[i] == vertices[i]);
        }
        lemma_filter_keeps_all(vertices.drop_last(), wanted);
        assert(vertices.drop_last().push(vertices.last()) =~= vertices);
    }
    assert(vertices.filter(wanted) =~= vertices);
}

/// A created vertex is read back: a read of everything, after the creation,
/// returns the vertices that were stored before and then the created one.
pub proof fn lemma_created_is_read(t: Table, args: Seq<ValueView>)
    requires
        sorted(t),
        all_decode(t),
        vertex_created(t, true, args) is Ok,
        vertex_fits(vertex_created(t, true, args)->Ok_0.0),
    ensures
        vertices_read(vertex_created(t, true, args)->Ok_0.1, Seq::empty()) == Ok::<
            Seq<VertexView>,
            Error,
        >(stored_vertices(t).push(vertex_created(t, true, args)->Ok_0.0)),
{
    let (vertex, after) = vertex_created(t, true, args)->Ok_0;
    lemma_created_is_new(t, args);
    lemma_vertex_roundtrip(vertex);
    assert(all_decode(after)) by {
        assert forall|i: int| 0 <= i < after.len() implies decode_vertex(
            (#[trigger] after[i]).0,
            after[i].1,
        ) is Some by {
            if i < t.len() {
                assert(after[i] == t[i]);
            }
        }
    }
    assert(stored_vertices(after) =~= stored_vertices(t).push(vertex));
    let none = Seq::<ValueView>::empty();
    assert(id_filter(none) == Some(Seq::<i64>::empty())) by {
        assert(id_filter(none).unwrap() =~= Seq::<i64>::empty());
    }
    let ids = Seq::<i64>::empty();
    lemma_filter_keeps_all(
        stored_vertices(after),
        |v: VertexView| ids.len() == 0 || ids.contains(v.id),
    );
}

/// Two creations, one after the other, add two vertices to the slot of
/// `addV`, and their identifiers differ.
pub proof fn lemma_add_v_twice(m: Machine, t: Table, first: Seq<ValueView>, second: Seq<ValueView>)
    requires
        sorted(t),
        step_add_v(m, t, first) is Ok,
        step_add_v(step_add_v(m, t, first)->Ok_0.0, step_add_v(m, t, first)->Ok_0.1, second) is Ok,
    ensures
        ({
            let before = m.result.new_vertices.value->List_0;
            let (m1, t1) = step_add_v(m, t, first)->Ok_0;
            let (m2, t2) = step_add_v(m1, t1, second)->Ok_0;
            let items = m2.result.new_vertices.value->List_0;
            &&& m2.result.new_vertices.value is List
            &&& items.len() == before.len() + 2
            &&& items.take(before.len() as int) == before
            &&& items[before.len() as int] is Vertex
            &&& items[before.len() as int + 1] is Vertex
            &&& items[before.len() as int]->Vertex_0.id < items[before.len() as int + 1]->Vertex_0.id
            &&& holds(t2, items[before.len() as int]->Vertex_0.id)
            &&& holds(t2, items[before.len() as int + 1]->Vertex_0.id)
        }),
{
    let before = m.result.new_vertices.value->List_0;
    let (m1, t1) = step_add_v(m, t, first)->Ok_0;
    let (m2, t2) = step_add_v(m1, t1, second)->Ok_0;
    let items = m2.result.new_vertices.value->List_0;
    lemma_created_is_new(t, first);
    lemma_created_is_new(t1, second);
    let a = vertex_created(t, true, first)->Ok_0.0;
    let b = vertex_created(t1, true, second)->Ok_0.0;
    assert(t1.last().0 == a.id);
    assert(items.take(before.len() as int) =~= before);
    assert(lookup(t2, a.id) == lookup(t1, a.id));
}

/// A filter by a label that no vertex of the stream has leaves the empty
/// list in the slot of `V`, and fails nothing.
pub proof fn lemma_has_label_without_match(m: Machine, args: Seq<ValueView>)
    requires
        args.len() > 0,
        args[0] is String,
        as_vertices(m.result.vertices.value) is Some,
        as_vertices(m.result.new_vertices.value) is Some,
        forall|i: int|
            0 <= i < as_vertices(m.result.vertices.value).unwrap().len() ==> (
            #[trigger] as_vertices(m.result.vertices.value).unwrap()[i]).label
                != args[0]->String_0,
    ensures
        step_has_label(m, args) is Ok,
        step_has_label(m, args)->Ok_0.result.vertices.value == ValueView::List(Seq::empty()),
        m.source == Some(Operator::V) && m.terminator == TerminatorToken::Vertex ==> collected(
            step_has_label(m, args)->Ok_0.result,
            step_has_label(m, args)->Ok_0.source,
            step_has_label(m, args)->Ok_0.terminator,
        ) == Ok::<ValueView, Error>(ValueView::List(Seq::empty())),
{
    let vertices = as_vertices(m.result.vertices.value).unwrap();
    let label = args[0]->String_0;
    lemma_none_labelled(vertices, label);
    assert(vertex_values(Seq::<VertexView>::empty()) =~= Seq::<ValueView>::empty());
    assert(as_vertices(ValueView::List(Seq::<ValueView>::empty())) is Some);
}

/// No vertex is kept where none has the label.
proof fn lemma_none_labelled(vertices: Seq<VertexView>, label: Seq<char>)
    requires
        forall|i: int| 0 <= i < vertices.len() ==> (#[trigger] vertices[i]).label != label,
    ensures
        labelled(vertices, label) == Seq::<VertexView>::empty(),
    decreases vertices.len(),
{
    reveal(Seq::filter);
    if vertices.len() > 0 {
        assert forall|i: int| 0 <= i < vertices.drop_last().len() implies (
        #[trigger] vertices.drop_last()[i]).label != label by {
            assert(vertices.drop_last()[i] == vertices[i]);
        }
        lemma_none_labelled(vertices.drop_last(), label);
    }
    assert(labelled(vertices, label) =~= Seq::<VertexView>::empty());
}

/// Where the cursor stands after a number of calls of `next`, from the
/// start.
pub open spec fn cursor_after(items: Seq<ValueView>, calls: nat) -> nat
    decreases calls,
{
    if calls == 0 {
        0
    } else {
        next_item(items, cursor_after(items, (calls - 1) as nat)).1
    }
}

/// Walking a list with `next`: the calls hand out the items in the order of
/// the list, one each, and nothing after the last; there is more to come
/// exactly until the last item has been handed out.
pub proof fn lemma_iteration(items: Seq<ValueView>, calls: nat)
    ensures
        cursor_after(items, calls) == if calls <= items.len() {
            calls
        } else {
            items.len()
        },
        calls < items.len() ==> next_item(items, cursor_after(items, calls)).0 == Some(
            items[calls as int],
        ),
        calls >= items.len() ==> next_item(items, cursor_after(items, calls)).0 is None,
        more(items, cursor_after(items, calls)) == (calls < items.len()),
    decreases calls,
{
    if calls > 0 {
        lemma_iteration(items, (calls - 1) as nat);
    }
}

/// Two transactions that were opened on the same store and touched no key
/// in common both commit, in either order: the second meets no conflict, and
/// after both every touched key reads as the transaction that touched it
/// saw it.
pub proof fn lemma_disjoint_commits(
    store: Table,
    first_seen: Table,
    first_touched: Set<i64>,
    after_first: Table,
    second_seen: Table,
    second_touched: Set<i64>,
    after_second: Table,
)
    requires
        first_touched.disjoint(second_touched),
        merged(store, first_seen, first_touched, after_first),
        merged(after_first, second_seen, second_touched, after_second),
    ensures
        !conflicts(after_first, store, second_touched),
        forall|key: i64|
            first_touched.contains(key) ==> lookup(after_second, key) == lookup(first_seen, key),
        forall|key: i64|
            second_touched.contains(key) ==> lookup(after_second, key) == lookup(second_seen, key),
        forall|key: i64|
            !first_touched.contains(key) && !second_touched.contains(key) ==> lookup(
                after_second,
                key,
            ) == lookup(store, key),
{
    assert forall|key: i64| second_touched.contains(key) implies lookup(after_first, key)
        == lookup(store, key) by {
        assert(!first_touched.contains(key));
    }
    assert forall|key: i64| first_touched.contains(key) implies lookup(after_second, key)
        == lookup(first_seen, key) by {
        assert(!second_touched.contains(key));
        assert(lookup(after_first, key) == lookup(first_seen, key));
    }
    assert forall|key: i64|
        !first_touched.contains(key) && !second_touched.contains(key) implies lookup(
        after_second,
        key,
    ) == lookup(store, key) by {
        assert(lookup(after_first, key) == lookup(store, key));
    }
}

/// Of two transactions that were opened on the same store, the one that
/// commits second is in conflict as soon as the first has changed what a key
/// reads that the second has touched too.
pub proof fn lemma_overlapping_commit_conflicts(
    store: Table,
    first_seen: Table,
    first_touched: Set<i64>,
    after_first: Table,
    second_touched: Set<i64>,
    key: i64,
)
    requires
        merged(store, first_seen, first_touched, after_first),
        first_touched.contains(key),
        second_touched.contains(key),
        lookup(first_seen, key) != lookup(store, key),
    ensures
        conflicts(after_first, store, second_touched),
{
    assert(lookup(after_first, key) == lookup(first_seen, key));
}

/// Whether one of the first `n` instructions calls the operator.
pub open spec fn calls(program: Seq<InstructionView>, n: nat, operator: Operator) -> bool {
    exists|i: int| 0 <= i < n && operator_of(#[trigger] program[i].operator) == Some(operator)
}

/// A streaming source that the program has not called has left nothing: its
/// slot is as empty as before the first step, and the stream is not its own.
pub proof fn lemma_uncalled_source_leaves_nothing(
    t: Table,
    program: Seq<InstructionView>,
    n: nat,
    origin: Operator,
)
    requires
        n <= program.len(),
        kind_of(origin) is StreamingSource,
        !calls(program, n, origin),
    ensures
        slot_of(run(initial(), t, program, n).machine.result, origin) == empty_slot(),
        run(initial(), t, program, n).machine.source != Some(origin),
    decreases n,
{
    if n > 0 {
        let before = run(initial(), t, program, (n - 1) as nat);
        assert(!calls(program, (n - 1) as nat, origin)) by {
            if calls(program, (n - 1) as nat, origin) {
                let i = choose|i: int|
                    0 <= i < n - 1 && operator_of(#[trigger] program[i].operator) == Some(origin);
                assert(operator_of(program[i].operator) == Some(origin));
            }
        }
        lemma_uncalled_source_leaves_nothing(t, program, (n - 1) as nat, origin);
        let ix = program[n - 1];
        assert(operator_of(ix.operator) != Some(origin));
        if before.failure is None && step(before.machine, before.table, ix) is Ok {
            lemma_step_keeps_empty(before.machine, before.table, ix, origin);
        }
    }
}

/// A step that does not call a streaming source leaves an empty slot of
/// that source empty, where the stream is not that source's own.
proof fn lemma_step_keeps_empty(m: Machine, t: Table, ix: InstructionView, origin: Operator)
    requires
        kind_of(origin) is StreamingSource,
        operator_of(ix.operator) != Some(origin),
        slot_of(m.result, origin) == empty_slot(),
        m.source != Some(origin),
        step(m, t, ix) is Ok,
    ensures
        slot_of(step(m, t, ix)->Ok_0.0.result, origin) == empty_slot(),
        step(m, t, ix)->Ok_0.0.source != Some(origin),
{
    let operator = operator_of(ix.operator).unwrap();
    let after = step(m, t, ix)->Ok_0.0;
    match operator {
        Operator::HasLabel => {
            if ix.args.len() > 0 {
                let label = ix.args[0]->String_0;
                reveal(Seq::filter);
                assert(vertex_values(Seq::<VertexView>::empty()) =~= Seq::<ValueView>::empty());
                if origin == Operator::V || origin == Operator::AddV {
                    let held = as_vertices(empty_slot().value).unwrap();
                    assert(held =~= Seq::<VertexView>::empty());
                    assert(labelled(held, label) =~= Seq::<VertexView>::empty());
                }
            }
        },
        _ => {},
    }
}

/// In a program with exactly one step that is a streaming source, the slot
/// of every other streaming source is empty after the run.
pub proof fn lemma_unrelated_slots_stay_empty(
    t: Table,
    program: Seq<InstructionView>,
    at: int,
    origin: Operator,
)
    requires
        0 <= at < program.len(),
        forall|i: int|
            0 <= i < program.len() && i != at ==> !(operator_of(#[trigger] program[i].operator)
                is Some && kind_of(operator_of(program[i].operator).unwrap())
                is StreamingSource),
        kind_of(origin) is StreamingSource,
        operator_of(program[at].operator) != Some(origin),
    ensures
        slot_of(run(initial(), t, program, program.len()).machine.result, origin) == empty_slot(),
{
    assert(!calls(program, program.len(), origin)) by {
        if calls(program, program.len(), origin) {
            let i = choose|i: int|
                0 <= i < program.len() && operator_of(#[trigger] program[i].operator) == Some(
                    origin,
                );
            assert(operator_of(program[i].operator) == Some(origin));
        }
    }
    lemma_uncalled_source_leaves_nothing(t, program, program.len(), origin);
}

} // verus!
