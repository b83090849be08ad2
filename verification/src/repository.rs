//! The vertex repository: what reading, creating and changing vertices means
//! for the table of a transaction, and the functions that do it.

use vstd::prelude::*;
use vstd::string::*;
use crate::codec::{decode, decode_vertex, encode, encode_vertex, vertex_fits};
use crate::error::Error;
use crate::storage::SimpleTransaction;
use crate::table::{Table, lookup, upsert};
use crate::text::text_views;
use crate::value::{
    Cardinality, PropertyValue, PropertyValueView, PropertyView, Value, ValueView, Vertex,
    VertexView, as_scalar, vertex_views, views,
};
use crate::vertex::{selected, with_properties, with_property};

verus! {

/// The label of a vertex that is created without one.
pub open spec fn default_label() -> Seq<char> {
    "vertex"@
}

/// The first identifier that an empty store hands out.
pub const FIRST_ID: i64 = 1;

/// Whether every record of the table is the record of a vertex.
pub open spec fn all_decode(t: Table) -> bool {
    forall|i: int| 0 <= i < t.len() ==> decode_vertex((#[trigger] t[i]).0, t[i].1) is Some
}

/// The vertices that the table stores, in ascending order of identifier.
pub open spec fn stored_vertices(t: Table) -> Seq<VertexView> {
    Seq::new(t.len(), |i: int| decode_vertex(t[i].0, t[i].1).unwrap())
}

/// The identifiers that the arguments of a read name, where all of them are
/// integers.
pub open spec fn id_filter(args: Seq<ValueView>) -> Option<Seq<i64>> {
    if forall|i: int| 0 <= i < args.len() ==> (#[trigger] args[i]) is Int64 {
        Some(Seq::new(args.len(), |i: int| args[i]->Int64_0))
    } else {
        None
    }
}

/// What a read returns: every stored vertex where no identifier is named,
/// else the stored vertices whose identifier is named.
pub open spec fn vertices_read(t: Table, args: Seq<ValueView>) -> Result<Seq<VertexView>, Error> {
    match id_filter(args) {
        None => Err(Error::TypeConversionError),
        Some(ids) => if !all_decode(t) {
            Err(Error::CorruptRecord)
        } else {
            Ok(stored_vertices(t).filter(|v: VertexView| ids.len() == 0 || ids.contains(v.id)))
        },
    }
}

/// The identifier of the next vertex: one above the greatest in the store.
pub open spec fn next_id(t: Table) -> Option<i64> {
    if t.len() == 0 {
        Some(FIRST_ID)
    } else if t.last().0 < i64::MAX {
        Some((t.last().0 + 1) as i64)
    } else {
        None
    }
}

/// The number of key and value pairs that follow the label.
pub open spec fn pair_count(args: Seq<ValueView>) -> int {
    if args.len() == 0 {
        0
    } else {
        (args.len() - 1) / 2
    }
}

/// Whether the arguments of a creation are a label, where there is any
/// argument, followed by pairs of a key and a scalar value.
pub open spec fn valid_creation(args: Seq<ValueView>) -> bool {
    args.len() == 0 || {
        &&& args[0] is String
        &&& (args.len() - 1) % 2 == 0
        &&& forall|i: int|
            0 <= i < pair_count(args) ==> (#[trigger] args[1 + 2 * i]) is String && as_scalar(
                args[2 + 2 * i],
            ) is Some
    }
}

/// The label that the arguments of a creation give.
pub open spec fn creation_label(args: Seq<ValueView>) -> Seq<char> {
    if args.len() == 0 {
        default_label()
    } else {
        args[0]->String_0
    }
}

/// The properties that the first `n` pairs of the arguments give, each
/// written with cardinality `Single` in the order of the pairs.
pub open spec fn inline_properties(args: Seq<ValueView>, n: nat) -> Seq<PropertyView>
    decreases n,
{
    if n == 0 {
        Seq::empty()
    } else {
        with_property(
            inline_properties(args, (n - 1) as nat),
            Cardinality::Single,
            args[2 * n - 1]->String_0,
            as_scalar(args[2 * n as int]).unwrap(),
        )
    }
}

/// What a creation returns and leaves in the table: a vertex under the next
/// identifier, with the label and the properties that the arguments give.
pub open spec fn vertex_created(t: Table, read_write: bool, args: Seq<ValueView>) -> Result<
    (VertexView, Table),
    Error,
> {
    if !valid_creation(args) {
        Err(Error::TypeConversionError)
    } else if next_id(t) is None {
        Err(Error::IdentifierExhausted)
    } else if !read_write {
        Err(Error::TransactionReadOnly)
    } else {
        let vertex = VertexView {
            id: next_id(t).unwrap(),
            label: creation_label(args),
            properties: inline_properties(args, pair_count(args) as nat),
        };
        Ok((vertex, upsert(t, vertex.id, encode_vertex(vertex))))
    }
}

/// The vertex stored under an identifier.
pub open spec fn stored_vertex(t: Table, id: i64) -> Result<VertexView, Error> {
    match lookup(t, id) {
        None => Err(Error::NotFound),
        Some(record) => match decode_vertex(id, record) {
            None => Err(Error::CorruptRecord),
            Some(vertex) => Ok(vertex),
        },
    }
}

/// The cardinality, key and value that the arguments of a property write
/// give: a key and a scalar value, with cardinality `Single`, or a
/// cardinality followed by the two.
pub open spec fn property_args(args: Seq<ValueView>) -> Option<
    (Cardinality, Seq<char>, PropertyValueView),
> {
    if args.len() == 2 && args[0] is String && as_scalar(args[1]) is Some {
        Some((Cardinality::Single, args[0]->String_0, as_scalar(args[1]).unwrap()))
    } else if args.len() == 3 && args[0] is Cardinality && args[1] is String && as_scalar(args[2])
        is Some {
        Some((args[0]->Cardinality_0, args[1]->String_0, as_scalar(args[2]).unwrap()))
    } else {
        None
    }
}

/// What a property write returns and leaves in the table: the stored vertex
/// with the value written under the key.
pub open spec fn property_set(t: Table, read_write: bool, id: i64, args: Seq<ValueView>) -> Result<
    (VertexView, Table),
    Error,
> {
    match stored_vertex(t, id) {
        Err(e) => Err(e),
        Ok(stored) => match property_args(args) {
            None => Err(Error::TypeConversionError),
            Some((cardinality, key, value)) => if !read_write {
                Err(Error::TransactionReadOnly)
            } else {
                let vertex = with_properties(
                    stored,
                    with_property(stored.properties, cardinality, key, value),
                );
                Ok((vertex, upsert(t, id, encode_vertex(vertex))))
            },
        },
    }
}

/// The keys that the arguments of a property read name, where all of them are
/// strings.
pub open spec fn key_filter(args: Seq<ValueView>) -> Option<Seq<Seq<char>>> {
    if forall|i: int| 0 <= i < args.len() ==> (#[trigger] args[i]) is String {
        Some(Seq::new(args.len(), |i: int| args[i]->String_0))
    } else {
        None
    }
}

/// What a property read returns: the stored vertex, with every property
/// where no key is named, else with the properties whose key is named.
pub open spec fn properties_read(t: Table, id: i64, args: Seq<ValueView>) -> Result<
    VertexView,
    Error,
> {
    match stored_vertex(t, id) {
        Err(e) => Err(e),
        Ok(stored) => match key_filter(args) {
            None => Err(Error::TypeConversionError),
            Some(keys) => if keys.len() == 0 {
                Ok(stored)
            } else {
                Ok(with_properties(stored, selected(stored.properties, keys)))
            },
        },
    }
}

/// The error of a result, if it is one.
pub open spec fn failure_of<T>(r: Result<T, Error>) -> Option<Error> {
    match r {
        Ok(_) => None,
        Err(e) => Some(e),
    }
}

/// Whether a failure is the one that is due: on a closed transaction
/// `TransactionStateError`; on an open one the failure that the operation's
/// meaning gives, or `StorageFailure` where the backend may fail on its own.
pub open spec fn excused(e: Error, open: bool, dependable: bool, due: Option<Error>) -> bool {
    if !open {
        e == Error::TransactionStateError
    } else {
        due == Some(e) || (e == Error::StorageFailure && !dependable)
    }
}

/// The identifiers that the arguments name.
fn parse_ids(args: &Vec<Value>) -> (ids: Option<Vec<i64>>)
    ensures
        match ids {
            Some(list) => id_filter(views(args@)) == Some(list@),
            None => id_filter(views(args@)) is None,
        },
{
    let mut ids: Vec<i64> = Vec::new();
    let mut i: usize = 0;
    while i < args.len()
        invariant
            i <= args.len(),
            ids@.len() == i,
            forall|j: int| 0 <= j < i ==> (#[trigger] views(args@)[j]) == ValueView::Int64(ids@[j]),
        decreases args.len() - i,
    {
        match &args[i] {
            Value::Int64(id) => {
                ids.push(*id);
            },
            _ => {
                assert(!(views(args@)[i as int] is Int64));
                return None;
            },
        }
        i += 1;
    }
    assert(id_filter(views(args@)).unwrap() =~= ids@);
    Some(ids)
}

/// The keys that the arguments name.
fn parse_keys(args: &Vec<Value>) -> (keys: Option<Vec<String>>)
    ensures
        match keys {
            Some(list) => key_filter(views(args@)) == Some(text_views(list@)),
            None => key_filter(views(args@)) is None,
        },
{
    let mut keys: Vec<String> = Vec::new();
    let mut i: usize = 0;
    while i < args.len()
        invariant
            i <= args.len(),
            keys@.len() == i,
            forall|j: int|
                0 <= j < i ==> (#[trigger] views(args@)[j]) == ValueView::String(keys@[j]@),
        decreases args.len() - i,
    {
        match &args[i] {
            Value::String(key) => {
                keys.push(key.clone());
            },
            _ => {
                assert(!(views(args@)[i as int] is String));
                return None;
            },
        }
        i += 1;
    }
    assert(key_filter(views(args@)).unwrap() =~= text_views(keys@));
    Some(keys)
}

/// Whether `id` is one of `ids`.
fn contains_id(ids: &Vec<i64>, id: i64) -> (found: bool)
    ensures
        found == ids@.contains(id),
{
    let mut i: usize = 0;
    while i < ids.len()
        invariant
            i <= ids.len(),
            forall|j: int| 0 <= j < i ==> ids@[j] != id,
        decreases ids.len() - i,
    {
        if ids[i] == id {
            return true;
        }
        i += 1;
    }
    false
}

/// The cardinality, key and value that the arguments give.
fn parse_property_args(args: &Vec<Value>) -> (parsed: Option<(Cardinality, String, PropertyValue)>)
    ensures
        match parsed {
            Some((cardinality, key, value)) => property_args(views(args@)) == Some(
                (cardinality, key@, value@),
            ),
            None => property_args(views(args@)) is None,
        },
{
    let ghost a = views(args@);
    if args.len() == 2 {
        assert(a[0] == args@[0]@ && a[1] == args@[1]@);
        match (&args[0], PropertyValue::from_value(&args[1])) {
            (Value::String(key), Ok(value)) => Some((Cardinality::Single, key.clone(), value)),
            _ => None,
        }
    } else if args.len() == 3 {
        assert(a[0] == args@[0]@ && a[1] == args@[1]@ && a[2] == args@[2]@);
        match (&args[0], &args[1], PropertyValue::from_value(&args[2])) {
            (Value::Cardinality(cardinality), Value::String(key), Ok(value)) => Some(
                (*cardinality, key.clone(), value),
            ),
            _ => None,
        }
    } else {
        None
    }
}

/// The vertex that the arguments of a creation describe, under `id`.
fn build_vertex(id: i64, args: &Vec<Value>) -> (built: Option<Vertex>)
    ensures
        match built {
            Some(vertex) => valid_creation(views(args@)) && vertex@ == (VertexView {
                id,
                label: creation_label(views(args@)),
                properties: inline_properties(views(args@), pair_count(views(args@)) as nat),
            }),
            None => !valid_creation(views(args@)),
        },
{
    let ghost a = views(args@);
    if args.len() == 0 {
        return Some(Vertex::new(id, "vertex".to_owned()));
    }
    assert(a[0] == args@[0]@);
    let label = match &args[0] {
        Value::String(label) => label.clone(),
        _ => {
            return None;
        },
    };
    if (args.len() - 1) % 2 != 0 {
        return None;
    }
    let pairs = (args.len() - 1) / 2;
    let mut vertex = Vertex::new(id, label);
    let mut i: usize = 0;
    while i < pairs
        invariant
            i <= pairs,
            pairs == pair_count(a),
            a == views(args@),
            args.len() > 0,
            (args.len() - 1) % 2 == 0,
            a[0] is String,
            forall|j: int|
                0 <= j < i ==> (#[trigger] a[1 + 2 * j]) is String && as_scalar(a[2 + 2 * j])
                    is Some,
            vertex@ == (VertexView {
                id,
                label: creation_label(a),
                properties: inline_properties(a, i as nat),
            }),
        decreases pairs - i,
    {
        assert(a[1 + 2 * i] == args@[1 + 2 * i]@ && a[2 + 2 * i] == args@[2 + 2 * i]@);
        let key = match &args[1 + 2 * i] {
            Value::String(key) => key,
            _ => {
                return None;
            },
        };
        let value = match PropertyValue::from_value(&args[2 + 2 * i]) {
            Ok(value) => value,
            Err(_) => {
                return None;
            },
        };
        vertex.set_property(Cardinality::Single, key.as_str(), value);
        i += 1;
    }
    Some(vertex)
}

/// The functions through which the engine reads and changes vertices. Each
/// works on the table of the transaction it is handed.
pub struct VertexRepository {}

impl VertexRepository {
    /// The stored vertices, or those of them that the arguments name by
    /// identifier.
    pub fn read_vertices<T: SimpleTransaction>(tx: &T, args: &Vec<Value>) -> (read: Result<
        Vec<Vertex>,
        Error,
    >)
        requires
            tx.wf(),
        ensures
            match read {
                Ok(vertices) => tx.status() is Open && vertices_read(tx.table(), views(args@))
                    == Ok::<Seq<VertexView>, Error>(vertex_views(vertices@)),
                Err(e) => excused(
                    e,
                    tx.status() is Open,
                    tx.dependable(),
                    failure_of(vertices_read(tx.table(), views(args@))),
                ),
            },
    {
        let entries = match tx.scan() {
            Ok(entries) => entries,
            Err(e) => {
                return Err(e);
            },
        };
        let ids = match parse_ids(args) {
            Some(ids) => ids,
            None => {
                return Err(Error::TypeConversionError);
            },
        };
        let ghost t = tx.table();
        let ghost wanted = |v: VertexView| ids@.len() == 0 || ids@.contains(v.id);
        let mut vertices: Vec<Vertex> = Vec::new();
        let mut i: usize = 0;
        assert(stored_vertices(t).take(0) =~= Seq::empty());
        while i < entries.len()
            invariant
                i <= entries.len(),
                t == tx.table(),
                tx.status() is Open,
                id_filter(views(args@)) == Some(ids@),
                crate::storage::entry_views(entries@) == t,
                wanted == |v: VertexView| ids@.len() == 0 || ids@.contains(v.id),
                forall|j: int| 0 <= j < i ==> decode_vertex((#[trigger] t[j]).0, t[j].1) is Some,
                vertex_views(vertices@) == stored_vertices(t).take(i as int).filter(wanted),
            decreases entries.len() - i,
        {
            assert(t[i as int] == (entries@[i as int].0, entries@[i as int].1@));
            match decode(entries[i].0, entries[i].1.as_slice()) {
                None => {
                    return Err(Error::CorruptRecord);
                },
                Some(vertex) => {
                    proof {
                        assert(stored_vertices(t).take(i + 1).drop_last() =~= stored_vertices(
                            t,
                        ).take(i as int));
                        reveal(Seq::filter);
                    }
                    if ids.len() == 0 || contains_id(&ids, vertex.id) {
                        vertices.push(vertex);
                        assert(vertex_views(vertices@) =~= stored_vertices(t).take(
                            i as int,
                        ).filter(wanted).push(stored_vertices(t)[i as int]));
                    }
                },
            }
            i += 1;
        }
        assert(stored_vertices(t).take(i as int) =~= stored_vertices(t));
        Ok(vertices)
    }

    /// Creates a vertex under the next identifier, with the label and the
    /// properties that the arguments give, and writes its record.
    pub fn create_vertex<T: SimpleTransaction>(tx: &mut T, args: &Vec<Value>) -> (created: Result<
        Vertex,
        Error,
    >)
        requires
            old(tx).wf(),
        ensures
            final(tx).wf(),
            final(tx).status() == old(tx).status(),
            final(tx).read_write() == old(tx).read_write(),
            final(tx).origin() == old(tx).origin(),
            final(tx).dependable() == old(tx).dependable(),
            match created {
                Ok(vertex) => {
                    &&& old(tx).status() is Open
                    &&& vertex_created(old(tx).table(), old(tx).read_write(), views(args@)) == Ok::<
                        (VertexView, Table),
                        Error,
                    >((vertex@, final(tx).table()))
                    &&& final(tx).touched() == old(tx).touched().insert(vertex.id)
                    &&& vertex_fits(vertex@)
                },
                Err(e) => {
                    &&& final(tx).table() == old(tx).table()
                    &&& final(tx).touched() == old(tx).touched()
                    &&& excused(
                        e,
                        old(tx).status() is Open,
                        old(tx).dependable(),
                        failure_of(
                            vertex_created(old(tx).table(), old(tx).read_write(), views(args@)),
                        ),
                    )
                },
            },
    {
        let entries = match tx.scan() {
            Ok(entries) => entries,
            Err(e) => {
                return Err(e);
            },
        };
        let ghost t = tx.table();
        let candidate = match build_vertex(0, args) {
            Some(vertex) => vertex,
            None => {
                return Err(Error::TypeConversionError);
            },
        };
        let id = if entries.len() == 0 {
            FIRST_ID
        } else {
            let last = entries[entries.len() - 1].0;
            assert(t.last().0 == last);
            if last == i64::MAX {
                return Err(Error::IdentifierExhausted);
            }
            last + 1
        };
        let vertex = Vertex { id, label: candidate.label, properties: candidate.properties };
        let record = encode(&vertex);
        match tx.put(id, record) {
            Ok(()) => Ok(vertex),
            Err(e) => Err(e),
        }
    }

    /// Reads the stored vertex with the identifier of `vertex`.
    fn load<T: SimpleTransaction>(vertex: &Vertex, tx: &T) -> (loaded: Result<Vertex, Error>)
        requires
            tx.wf(),
        ensures
            match loaded {
                Ok(stored) => tx.status() is Open && stored_vertex(tx.table(), vertex.id) == Ok::<
                    VertexView,
                    Error,
                >(stored@),
                Err(e) => excused(
                    e,
                    tx.status() is Open,
                    tx.dependable(),
                    failure_of(stored_vertex(tx.table(), vertex.id)),
                ),
            },
    {
        match tx.get(vertex.id) {
            Err(e) => Err(e),
            Ok(None) => Err(Error::NotFound),
            Ok(Some(record)) => match decode(vertex.id, record.as_slice()) {
                None => Err(Error::CorruptRecord),
                Some(stored) => Ok(stored),
            },
        }
    }

    /// Writes a value under a key of the stored vertex with the identifier
    /// of `vertex`, as the cardinality says, and writes the record back. A
    /// vertex that is not stored is not created: the write fails with
    /// `NotFound`.
    pub fn set_property<T: SimpleTransaction>(vertex: &Vertex, tx: &mut T, args: &Vec<Value>) -> (set:
        Result<Vertex, Error>)
        requires
            old(tx).wf(),
        ensures
            final(tx).wf(),
            final(tx).status() == old(tx).status(),
            final(tx).read_write() == old(tx).read_write(),
            final(tx).origin() == old(tx).origin(),
            final(tx).dependable() == old(tx).dependable(),
            match set {
                Ok(updated) => {
                    &&& old(tx).status() is Open
                    &&& property_set(
                        old(tx).table(),
                        old(tx).read_write(),
                        vertex.id,
                        views(args@),
                    ) == Ok::<(VertexView, Table), Error>((updated@, final(tx).table()))
                    &&& final(tx).touched() == old(tx).touched().insert(vertex.id)
                    &&& vertex_fits(updated@)
                },
                Err(e) => {
                    &&& final(tx).table() == old(tx).table()
                    &&& final(tx).touched() == old(tx).touched()
                    &&& excused(
                        e,
                        old(tx).status() is Open,
                        old(tx).dependable(),
                        failure_of(
                            property_set(
                                old(tx).table(),
                                old(tx).read_write(),
                                vertex.id,
                                views(args@),
                            ),
                        ),
                    )
                },
            },
    {
        let mut stored = match Self::load(vertex, tx) {
            Ok(stored) => stored,
            Err(e) => {
                return Err(e);
            },
        };
        let (cardinality, key, value) = match parse_property_args(args) {
            Some(parsed) => parsed,
            None => {
                return Err(Error::TypeConversionError);
            },
        };
        stored.set_property(cardinality, key.as_str(), value);
        let record = encode(&stored);
        match tx.put(vertex.id, record) {
            Ok(()) => Ok(stored),
            Err(e) => Err(e),
        }
    }

    /// The stored vertex with the identifier of `vertex`, with all its
    /// properties or with those whose key the arguments name.
    pub fn read_properties<T: SimpleTransaction>(vertex: &Vertex, tx: &T, args: &Vec<Value>) -> (read:
        Result<Vertex, Error>)
        requires
            tx.wf(),
        ensures
            match read {
                Ok(found) => tx.status() is Open && properties_read(
                    tx.table(),
                    vertex.id,
                    views(args@),
                ) == Ok::<VertexView, Error>(found@),
                Err(e) => excused(
                    e,
                    tx.status() is Open,
                    tx.dependable(),
                    failure_of(properties_read(tx.table(), vertex.id, views(args@))),
                ),
            },
    {
        let stored = match Self::load(vertex, tx) {
            Ok(stored) => stored,
            Err(e) => {
                return Err(e);
            },
        };
        let keys = match parse_keys(args) {
            Some(keys) => keys,
            None => {
                return Err(Error::TypeConversionError);
            },
        };
        if keys.len() == 0 {
            Ok(stored)
        } else {
            Ok(stored.select(&keys))
        }
    }
}

} // verus!
