use traversal_engine::codec::encode;
use traversal_engine::error::Error;
use traversal_engine::memory::memory_adapter;
use traversal_engine::repository::VertexRepository;
use traversal_engine::storage::{DatastoreAdapter, SimpleTransaction};
use traversal_engine::value::{Cardinality, Property, PropertyValue, Value, Vertex};

fn text(s: &str) -> Value {
    Value::String(s.to_string())
}

fn string(s: &str) -> PropertyValue {
    PropertyValue::String(s.to_string())
}

fn bare(id: i64, label: &str) -> Vertex {
    Vertex { id, label: label.to_string(), properties: vec![] }
}

#[test]
fn create_allocates_ascending_identifiers() {
    let store = memory_adapter("/m".to_string());
    let mut tx = store.transaction(true).unwrap();
    let first = VertexRepository::create_vertex(&mut tx, &vec![text("a")]).unwrap();
    let second = VertexRepository::create_vertex(&mut tx, &vec![text("b")]).unwrap();
    assert_eq!(first, bare(1, "a"));
    assert_eq!(second, bare(2, "b"));
    assert_eq!(tx.get(1), Ok(Some(encode(&first))));
    assert_eq!(VertexRepository::read_vertices(&tx, &vec![]), Ok(vec![first, second]));
}

#[test]
fn create_continues_after_greatest_key() {
    let store = memory_adapter("/m".to_string());
    let mut tx = store.transaction(true).unwrap();
    tx.put(41, encode(&bare(41, "x"))).unwrap();
    tx.put(-7, encode(&bare(-7, "y"))).unwrap();
    let created = VertexRepository::create_vertex(&mut tx, &vec![]).unwrap();
    assert_eq!(created, bare(42, "vertex"));
}

#[test]
fn create_fails_when_identifiers_run_out() {
    let store = memory_adapter("/m".to_string());
    let mut tx = store.transaction(true).unwrap();
    tx.put(i64::MAX, encode(&bare(i64::MAX, "last"))).unwrap();
    assert_eq!(
        VertexRepository::create_vertex(&mut tx, &vec![text("a")]),
        Err(Error::IdentifierExhausted)
    );
    assert_eq!(tx.scan().map(|entries| entries.len()), Ok(1));
}

#[test]
fn create_on_read_only_transaction() {
    let store = memory_adapter("/m".to_string());
    let mut tx = store.transaction(false).unwrap();
    assert_eq!(
        VertexRepository::create_vertex(&mut tx, &vec![text("a")]),
        Err(Error::TransactionReadOnly)
    );
    assert_eq!(
        VertexRepository::create_vertex(&mut tx, &vec![Value::Null]),
        Err(Error::TypeConversionError)
    );
}

#[test]
fn repository_on_closed_transaction() {
    let store = memory_adapter("/m".to_string());
    let mut tx = store.transaction(true).unwrap();
    tx.rollback().unwrap();
    let v = bare(1, "a");
    assert_eq!(VertexRepository::read_vertices(&tx, &vec![]), Err(Error::TransactionStateError));
    assert_eq!(VertexRepository::create_vertex(&mut tx, &vec![]), Err(Error::TransactionStateError));
    assert_eq!(
        VertexRepository::set_property(&v, &mut tx, &vec![text("k"), text("v")]),
        Err(Error::TransactionStateError)
    );
    assert_eq!(VertexRepository::read_properties(&v, &tx, &vec![]), Err(Error::TransactionStateError));
}

#[test]
fn list_cardinality_keeps_both_values_in_order() {
    let mut store = memory_adapter("/m".to_string());
    let mut tx = store.transaction(true).unwrap();
    let v = VertexRepository::create_vertex(&mut tx, &vec![text("person")]).unwrap();
    let list = Value::Cardinality(Cardinality::List);
    VertexRepository::set_property(&v, &mut tx, &vec![list.clone(), text("nick"), text("al")]).unwrap();
    let updated =
        VertexRepository::set_property(&v, &mut tx, &vec![list.clone(), text("nick"), text("ally")]).unwrap();
    assert_eq!(updated.property_values("nick"), vec![string("al"), string("ally")]);
    let again = VertexRepository::set_property(&v, &mut tx, &vec![list, text("nick"), text("al")]).unwrap();
    assert_eq!(again.property_values("nick"), vec![string("al"), string("ally"), string("al")]);
    store.commit(&mut tx).unwrap();

    let reader = store.transaction(false).unwrap();
    let read = VertexRepository::read_properties(&v, &reader, &vec![]).unwrap();
    assert_eq!(
        read.properties,
        vec![Property { key: "nick".to_string(), values: vec![string("al"), string("ally"), string("al")] }]
    );
}

#[test]
fn single_cardinality_keeps_the_latest_value() {
    let store = memory_adapter("/m".to_string());
    let mut tx = store.transaction(true).unwrap();
    let v = VertexRepository::create_vertex(&mut tx, &vec![text("person")]).unwrap();
    let single = Value::Cardinality(Cardinality::Single);
    VertexRepository::set_property(&v, &mut tx, &vec![single.clone(), text("age"), Value::Int64(1)]).unwrap();
    VertexRepository::set_property(&v, &mut tx, &vec![single, text("age"), Value::Int64(2)]).unwrap();
    let updated = VertexRepository::set_property(&v, &mut tx, &vec![text("age"), Value::Int64(3)]).unwrap();
    assert_eq!(updated.property_values("age"), vec![PropertyValue::Int64(3)]);
    let read = VertexRepository::read_properties(&v, &tx, &vec![]).unwrap();
    assert_eq!(read, updated);
}

#[test]
fn distinct_cardinality_drops_repeated_values() {
    let store = memory_adapter("/m".to_string());
    let mut tx = store.transaction(true).unwrap();
    let v = VertexRepository::create_vertex(&mut tx, &vec![text("person")]).unwrap();
    let distinct = Value::Cardinality(Cardinality::Distinct);
    for value in [Value::Int64(1), Value::Int64(2), Value::Int64(1), Value::Boolean(true), Value::Int64(2)] {
        VertexRepository::set_property(&v, &mut tx, &vec![distinct.clone(), text("tag"), value]).unwrap();
    }
    let read = VertexRepository::read_properties(&v, &tx, &vec![]).unwrap();
    assert_eq!(
        read.property_values("tag"),
        vec![PropertyValue::Int64(1), PropertyValue::Int64(2), PropertyValue::Boolean(true)]
    );
}

#[test]
fn write_to_missing_vertex_is_not_found() {
    let store = memory_adapter("/m".to_string());
    let mut tx = store.transaction(true).unwrap();
    assert_eq!(
        VertexRepository::set_property(&bare(5, "ghost"), &mut tx, &vec![text("k"), text("v")]),
        Err(Error::NotFound)
    );
    assert_eq!(VertexRepository::read_properties(&bare(5, "ghost"), &tx, &vec![]), Err(Error::NotFound));
    assert_eq!(tx.scan(), Ok(vec![]));
}

#[test]
fn write_refuses_bad_arguments() {
    let store = memory_adapter("/m".to_string());
    let mut tx = store.transaction(true).unwrap();
    let v = VertexRepository::create_vertex(&mut tx, &vec![]).unwrap();
    let list = Value::Cardinality(Cardinality::List);
    for args in [
        vec![],
        vec![text("k")],
        vec![Value::Int64(1), text("v")],
        vec![text("k"), Value::Null],
        vec![text("k"), Value::List(vec![])],
        vec![list.clone(), text("k")],
        vec![text("k"), text("v"), text("w")],
        vec![list.clone(), Value::Int64(1), text("v")],
        vec![list, text("k"), text("v"), text("w")],
    ] {
        assert_eq!(VertexRepository::set_property(&v, &mut tx, &args), Err(Error::TypeConversionError));
    }
    assert_eq!(VertexRepository::read_properties(&v, &tx, &vec![]), Ok(bare(1, "vertex")));
}

#[test]
fn write_on_read_only_transaction() {
    let mut store = memory_adapter("/m".to_string());
    let mut tx = store.transaction(true).unwrap();
    let v = VertexRepository::create_vertex(&mut tx, &vec![]).unwrap();
    store.commit(&mut tx).unwrap();
    let mut reader = store.transaction(false).unwrap();
    assert_eq!(
        VertexRepository::set_property(&v, &mut reader, &vec![text("k"), text("v")]),
        Err(Error::TransactionReadOnly)
    );
}

#[test]
fn corrupt_record_is_reported() {
    let store = memory_adapter("/m".to_string());
    let mut tx = store.transaction(true).unwrap();
    tx.put(1, encode(&bare(1, "fine"))).unwrap();
    tx.put(2, vec![1, 2, 3]).unwrap();
    assert_eq!(VertexRepository::read_vertices(&tx, &vec![]), Err(Error::CorruptRecord));
    assert_eq!(VertexRepository::read_vertices(&tx, &vec![Value::Int64(1)]), Err(Error::CorruptRecord));
    assert_eq!(VertexRepository::read_properties(&bare(2, "x"), &tx, &vec![]), Err(Error::CorruptRecord));
    assert_eq!(
        VertexRepository::set_property(&bare(2, "x"), &mut tx, &vec![text("k"), text("v")]),
        Err(Error::CorruptRecord)
    );
    assert_eq!(VertexRepository::read_properties(&bare(1, "x"), &tx, &vec![]), Ok(bare(1, "fine")));
}

#[test]
fn read_properties_selects_named_keys() {
    let store = memory_adapter("/m".to_string());
    let mut tx = store.transaction(true).unwrap();
    let v = VertexRepository::create_vertex(
        &mut tx,
        &vec![text("p"), text("a"), Value::Int64(1), text("b"), Value::Int64(2), text("c"), Value::Int64(3)],
    )
    .unwrap();
    let picked = VertexRepository::read_properties(&v, &tx, &vec![text("c"), text("a"), text("zz")]).unwrap();
    assert_eq!(
        picked.properties,
        vec![
            Property { key: "a".to_string(), values: vec![PropertyValue::Int64(1)] },
            Property { key: "c".to_string(), values: vec![PropertyValue::Int64(3)] },
        ]
    );
    assert_eq!(picked.id, 1);
    assert_eq!(picked.label, "p");
    assert_eq!(VertexRepository::read_properties(&v, &tx, &vec![Value::Boolean(true)]), Err(Error::TypeConversionError));
}

#[test]
fn read_vertices_filters_by_identifier() {
    let store = memory_adapter("/m".to_string());
    let mut tx = store.transaction(true).unwrap();
    for label in ["a", "b", "c"] {
        VertexRepository::create_vertex(&mut tx, &vec![text(label)]).unwrap();
    }
    assert_eq!(
        VertexRepository::read_vertices(&tx, &vec![Value::Int64(2), Value::Int64(2), Value::Int64(40)]),
        Ok(vec![bare(2, "b")])
    );
    assert_eq!(
        VertexRepository::read_vertices(&tx, &vec![Value::Int64(2), Value::Null]),
        Err(Error::TypeConversionError)
    );
}
