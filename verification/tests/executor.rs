use traversal_engine::bytecode::{Bytecode, Instruction, Operator};
use traversal_engine::error::Error;
use traversal_engine::exec::StepExecutor;
use traversal_engine::memory::{memory_adapter, MemoryEngine};
use traversal_engine::result::IxResult;
use traversal_engine::storage::StorageAdapter;
use traversal_engine::value::{
    Cardinality, Property, PropertyValue, Value, Vertex, VertexProperty,
};

fn text(s: &str) -> Value {
    Value::String(s.to_string())
}

fn program(steps: Vec<(&str, Vec<Value>)>) -> Bytecode {
    let mut bytecode = Bytecode::new();
    for (operator, args) in steps {
        bytecode.add_step(operator.to_string(), args);
    }
    bytecode
}

fn run_list(store: &mut StorageAdapter<MemoryEngine>, steps: Vec<(&str, Vec<Value>)>) -> Result<Vec<Value>, Error> {
    StepExecutor::new(program(steps)).to_list(store)
}

fn store_with_labels(labels: &[&str]) -> StorageAdapter<MemoryEngine> {
    let mut store = memory_adapter("/data/graph".to_string());
    for label in labels {
        let created = run_list(&mut store, vec![("addV", vec![text(label)])]);
        assert!(created.is_ok());
    }
    store
}

fn vertex(id: i64, label: &str) -> Vertex {
    Vertex { id, label: label.to_string(), properties: vec![] }
}

#[test]
fn empty_program_yields_null() {
    let mut store = memory_adapter("/data/graph".to_string());
    let mut executor = StepExecutor::new(Bytecode::new());
    assert_eq!(executor.done(&mut store), Ok(Value::Null));
    assert_eq!(executor.to_list(&mut store), Err(Error::TypeConversionError));
}

#[test]
fn read_alone_leaves_other_origins_empty() {
    let mut store = store_with_labels(&["person", "dog"]);
    let mut executor = StepExecutor::new(program(vec![
        ("V", vec![]),
        ("hasLabel", vec![text("person")]),
        ("properties", vec![]),
        ("count", vec![]),
    ]));
    assert_eq!(executor.done(&mut store), Ok(Value::Int64(0)));
    assert_eq!(executor.result.vertices.operator, Some(Operator::V));
    assert_eq!(executor.result.new_vertices, IxResult::empty());
    assert_eq!(executor.result.edges, IxResult::empty());
    assert_eq!(executor.result.new_edges, IxResult::empty());
}

#[test]
fn creation_alone_leaves_other_origins_empty() {
    let mut store = memory_adapter("/data/graph".to_string());
    let mut executor = StepExecutor::new(program(vec![
        ("addV", vec![text("person")]),
        ("property", vec![text("name"), text("alice")]),
        ("hasLabel", vec![text("person")]),
        ("properties", vec![]),
    ]));
    assert_eq!(executor.to_list(&mut store).map(|list| list.len()), Ok(1));
    assert_eq!(executor.result.new_vertices.operator, Some(Operator::AddV));
    assert_eq!(executor.result.vertices, IxResult::empty());
    assert_eq!(executor.result.edges, IxResult::empty());
    assert_eq!(executor.result.new_edges, IxResult::empty());
}

#[test]
fn add_v_twice_accumulates_two_vertices() {
    let mut store = memory_adapter("/data/graph".to_string());
    let mut executor = StepExecutor::new(program(vec![
        ("addV", vec![text("person")]),
        ("addV", vec![text("dog")]),
    ]));
    let list = executor.to_list(&mut store).unwrap();
    assert_eq!(
        list,
        vec![Value::Vertex(vertex(1, "person")), Value::Vertex(vertex(2, "dog"))]
    );
    assert_eq!(executor.result.new_vertices.value, Value::List(list));
    assert_eq!(store.db_instance.len(), 2);
}

#[test]
fn add_v_without_label_uses_default() {
    let mut store = memory_adapter("/data/graph".to_string());
    let list = run_list(&mut store, vec![("addV", vec![])]).unwrap();
    assert_eq!(list, vec![Value::Vertex(vertex(1, "vertex"))]);
}

#[test]
fn add_v_with_inline_properties() {
    let mut store = memory_adapter("/data/graph".to_string());
    let list = run_list(
        &mut store,
        vec![(
            "addV",
            vec![text("person"), text("name"), text("bob"), text("age"), Value::Int64(7), text("name"), text("rob")],
        )],
    )
    .unwrap();
    let expected = Vertex {
        id: 1,
        label: "person".to_string(),
        properties: vec![
            Property { key: "name".to_string(), values: vec![PropertyValue::String("rob".to_string())] },
            Property { key: "age".to_string(), values: vec![PropertyValue::Int64(7)] },
        ],
    };
    assert_eq!(list, vec![Value::Vertex(expected)]);
}

#[test]
fn add_v_refuses_bad_arguments() {
    let mut store = memory_adapter("/data/graph".to_string());
    assert_eq!(run_list(&mut store, vec![("addV", vec![Value::Int64(3)])]), Err(Error::TypeConversionError));
    assert_eq!(
        run_list(&mut store, vec![("addV", vec![text("a"), text("key")])]),
        Err(Error::TypeConversionError)
    );
    assert_eq!(
        run_list(&mut store, vec![("addV", vec![text("a"), text("key"), Value::Null])]),
        Err(Error::TypeConversionError)
    );
    assert_eq!(store.db_instance.len(), 0);
}

#[test]
fn properties_fold_into_created_vertex() {
    let mut store = memory_adapter("/data/graph".to_string());
    let mut executor = StepExecutor::new(program(vec![
        ("addV", vec![text("person")]),
        ("property", vec![text("name"), text("alice")]),
        ("property", vec![text("age"), Value::Int64(30)]),
    ]));
    let expected = Vertex {
        id: 1,
        label: "person".to_string(),
        properties: vec![
            Property { key: "name".to_string(), values: vec![PropertyValue::String("alice".to_string())] },
            Property { key: "age".to_string(), values: vec![PropertyValue::Int64(30)] },
        ],
    };
    let created = executor.to_list(&mut store).unwrap();
    assert_eq!(created, vec![Value::Vertex(expected.clone())]);
    assert_eq!(store.db_instance.len(), 1);

    let read = run_list(&mut store, vec![("V", vec![])]).unwrap();
    assert_eq!(read, vec![Value::Vertex(expected)]);
}

#[test]
fn has_label_then_count() {
    let mut store = store_with_labels(&["person", "dog", "person"]);
    let mut executor = StepExecutor::new(program(vec![
        ("V", vec![]),
        ("hasLabel", vec![text("person")]),
        ("count", vec![]),
    ]));
    assert_eq!(executor.done(&mut store), Ok(Value::Int64(2)));
    assert_eq!(
        executor.result.vertices.value,
        Value::List(vec![Value::Vertex(vertex(1, "person")), Value::Vertex(vertex(3, "person"))])
    );
    assert_eq!(
        executor.result.other,
        IxResult::new(Operator::Count, Value::Terminator(traversal_engine::value::TerminatorToken::Vertex))
    );
}

#[test]
fn has_label_without_match_is_empty_list() {
    let mut store = store_with_labels(&["person", "dog"]);
    assert_eq!(
        run_list(&mut store, vec![("V", vec![]), ("hasLabel", vec![text("cat")])]),
        Ok(vec![])
    );
    let mut counted = StepExecutor::new(program(vec![
        ("V", vec![]),
        ("hasLabel", vec![text("cat")]),
        ("count", vec![]),
    ]));
    assert_eq!(counted.done(&mut store), Ok(Value::Int64(0)));
}

#[test]
fn has_label_without_argument_filters_nothing() {
    let mut store = store_with_labels(&["person", "dog"]);
    let list = run_list(&mut store, vec![("V", vec![]), ("hasLabel", vec![])]).unwrap();
    assert_eq!(list.len(), 2);
}

#[test]
fn has_label_refuses_other_than_text() {
    let mut store = store_with_labels(&["person"]);
    assert_eq!(
        run_list(&mut store, vec![("V", vec![]), ("hasLabel", vec![Value::Int64(1)])]),
        Err(Error::TypeConversionError)
    );
}

#[test]
fn has_label_filters_created_vertices_too() {
    let mut store = memory_adapter("/data/graph".to_string());
    let list = run_list(
        &mut store,
        vec![
            ("addV", vec![text("person")]),
            ("addV", vec![text("dog")]),
            ("hasLabel", vec![text("dog")]),
        ],
    );
    assert_eq!(list, Ok(vec![Value::Vertex(vertex(2, "dog"))]));
}

#[test]
fn cursor_walks_the_list_in_order() {
    let mut store = store_with_labels(&["a", "b", "c"]);
    let mut executor = StepExecutor::new(program(vec![("V", vec![])]));
    let list = executor.to_list(&mut store).unwrap();
    assert_eq!(list.len(), 3);
    for item in list.iter() {
        assert_eq!(executor.has_next(&mut store), Ok(true));
        assert_eq!(executor.next(&mut store), Ok(Some(item.clone())));
    }
    assert_eq!(executor.has_next(&mut store), Ok(false));
    assert_eq!(executor.next(&mut store), Ok(None));
    assert_eq!(executor.next(&mut store), Ok(None));
    assert_eq!(executor.has_next(&mut store), Ok(false));
}

#[test]
fn cursor_on_empty_list() {
    let mut store = memory_adapter("/data/graph".to_string());
    let mut executor = StepExecutor::new(program(vec![("V", vec![])]));
    assert_eq!(executor.has_next(&mut store), Ok(false));
    assert_eq!(executor.next(&mut store), Ok(None));
}

#[test]
fn iteration_runs_the_program_once() {
    let mut store = memory_adapter("/data/graph".to_string());
    let mut executor = StepExecutor::new(program(vec![("addV", vec![text("person")])]));
    assert_eq!(executor.next(&mut store), Ok(Some(Value::Vertex(vertex(1, "person")))));
    assert_eq!(executor.has_next(&mut store), Ok(false));
    assert_eq!(executor.next(&mut store), Ok(None));
    assert_eq!(executor.to_list(&mut store).unwrap().len(), 1);
    assert_eq!(executor.done(&mut store), Ok(Value::Vertex(vertex(1, "person"))));
    assert_eq!(store.db_instance.len(), 1);
}

#[test]
fn done_wants_exactly_one_item() {
    let mut store = store_with_labels(&["a", "b"]);
    let mut two = StepExecutor::new(program(vec![("V", vec![])]));
    assert_eq!(two.done(&mut store), Err(Error::TerminatorMismatch));
    let mut one = StepExecutor::new(program(vec![("V", vec![Value::Int64(2)])]));
    assert_eq!(one.done(&mut store), Ok(Value::Vertex(vertex(2, "b"))));
    let mut none = StepExecutor::new(program(vec![("V", vec![Value::Int64(9)])]));
    assert_eq!(none.done(&mut store), Err(Error::TerminatorMismatch));
}

#[test]
fn read_by_identifier() {
    let mut store = store_with_labels(&["a", "b", "c"]);
    let list = run_list(&mut store, vec![("V", vec![Value::Int64(3), Value::Int64(1)])]).unwrap();
    assert_eq!(list, vec![Value::Vertex(vertex(1, "a")), Value::Vertex(vertex(3, "c"))]);
    assert_eq!(run_list(&mut store, vec![("V", vec![text("1")])]), Err(Error::TypeConversionError));
}

#[test]
fn unknown_operator_is_refused() {
    let mut store = memory_adapter("/data/graph".to_string());
    assert_eq!(run_list(&mut store, vec![("drop", vec![])]), Err(Error::UnsupportedOperator));
    assert_eq!(run_list(&mut store, vec![("v", vec![])]), Err(Error::UnsupportedOperator));
    assert_eq!(run_list(&mut store, vec![("", vec![])]), Err(Error::UnsupportedOperator));
}

#[test]
fn has_ids_is_refused() {
    let mut store = store_with_labels(&["a"]);
    assert_eq!(
        run_list(&mut store, vec![("V", vec![]), ("hasIds", vec![Value::Int64(1)])]),
        Err(Error::UnsupportedOperator)
    );
}

#[test]
fn edges_are_scaffolding() {
    let mut store = memory_adapter("/data/graph".to_string());
    let mut executor = StepExecutor::new(program(vec![("E", vec![])]));
    assert_eq!(executor.to_list(&mut store), Err(Error::TerminatorMismatch));
    assert_eq!(executor.result.edges, IxResult::new(Operator::E, Value::Null));
    assert_eq!(executor.result.vertices, IxResult::empty());
    let mut adding = StepExecutor::new(program(vec![("addE", vec![text("knows")])]));
    assert_eq!(adding.done(&mut store), Err(Error::TerminatorMismatch));
    assert_eq!(adding.result.new_edges, IxResult::new(Operator::AddE, Value::Null));
    assert_eq!(store.db_instance.len(), 0);
}

#[test]
fn property_needs_a_stream() {
    let mut store = memory_adapter("/data/graph".to_string());
    assert_eq!(
        run_list(&mut store, vec![("property", vec![text("k"), text("v")])]),
        Err(Error::UnsupportedOperator)
    );
    assert_eq!(
        run_list(&mut store, vec![("E", vec![]), ("property", vec![text("k"), text("v")])]),
        Err(Error::UnsupportedOperator)
    );
    assert_eq!(run_list(&mut store, vec![("properties", vec![])]), Err(Error::UnsupportedOperator));
    assert_eq!(
        run_list(&mut store, vec![("addV", vec![]), ("property", vec![])]),
        Err(Error::TypeConversionError)
    );
    assert_eq!(
        run_list(&mut store, vec![("addV", vec![]), ("property", vec![text("k")])]),
        Err(Error::TypeConversionError)
    );
}

#[test]
fn cardinality_in_front_declares_only() {
    let mut store = memory_adapter("/data/graph".to_string());
    let mut executor = StepExecutor::new(program(vec![
        ("addV", vec![text("person")]),
        ("property", vec![Value::Cardinality(Cardinality::List), text("name"), text("alice")]),
    ]));
    assert_eq!(executor.to_list(&mut store), Ok(vec![Value::Vertex(vertex(1, "person"))]));
    assert_eq!(executor.result.other, IxResult::new(Operator::Property, Value::Null));
    assert_eq!(run_list(&mut store, vec![("V", vec![])]), Ok(vec![Value::Vertex(vertex(1, "person"))]));
}

#[test]
fn property_on_read_stream_reaches_every_vertex() {
    let mut store = store_with_labels(&["a", "b"]);
    let mut executor = StepExecutor::new(program(vec![
        ("V", vec![]),
        ("property", vec![text("seen"), Value::Boolean(true)]),
    ]));
    let streamed = executor.to_list(&mut store).unwrap();
    assert_eq!(streamed, vec![Value::Vertex(vertex(1, "a")), Value::Vertex(vertex(2, "b"))]);
    let seen = vec![Property { key: "seen".to_string(), values: vec![PropertyValue::Boolean(true)] }];
    let expected = vec![
        Value::Vertex(Vertex { id: 1, label: "a".to_string(), properties: seen.clone() }),
        Value::Vertex(Vertex { id: 2, label: "b".to_string(), properties: seen }),
    ];
    assert_eq!(executor.result.other, IxResult::new(Operator::Property, Value::List(expected.clone())));
    assert_eq!(run_list(&mut store, vec![("V", vec![])]), Ok(expected));
}

#[test]
fn property_on_empty_read_stream_changes_nothing() {
    let mut store = memory_adapter("/data/graph".to_string());
    let mut executor = StepExecutor::new(program(vec![
        ("V", vec![]),
        ("property", vec![text("k"), text("v")]),
    ]));
    assert_eq!(executor.to_list(&mut store), Ok(vec![]));
    assert_eq!(executor.result.other, IxResult::new(Operator::Property, Value::List(vec![])));
}

#[test]
fn properties_of_read_stream() {
    let mut store = memory_adapter("/data/graph".to_string());
    run_list(
        &mut store,
        vec![("addV", vec![text("person"), text("name"), text("al"), text("age"), Value::Int64(3)])],
    )
    .unwrap();
    run_list(&mut store, vec![("addV", vec![text("dog"), text("name"), text("rex")])]).unwrap();
    let all = run_list(&mut store, vec![("V", vec![]), ("properties", vec![])]).unwrap();
    let property = |key: &str, value: PropertyValue| {
        Value::VertexProperty(VertexProperty { key: key.to_string(), value })
    };
    assert_eq!(
        all,
        vec![
            property("name", PropertyValue::String("al".to_string())),
            property("age", PropertyValue::Int64(3)),
            property("name", PropertyValue::String("rex".to_string())),
        ]
    );
    let named = run_list(&mut store, vec![("V", vec![]), ("properties", vec![text("age")])]).unwrap();
    assert_eq!(named, vec![property("age", PropertyValue::Int64(3))]);
    let mut counted = StepExecutor::new(program(vec![
        ("V", vec![]),
        ("properties", vec![]),
        ("count", vec![]),
    ]));
    assert_eq!(counted.done(&mut store), Ok(Value::Int64(3)));
    assert_eq!(
        run_list(&mut store, vec![("V", vec![]), ("properties", vec![Value::Int64(1)])]),
        Err(Error::TypeConversionError)
    );
}

#[test]
fn properties_of_created_vertex() {
    let mut store = memory_adapter("/data/graph".to_string());
    let mut executor = StepExecutor::new(program(vec![
        ("addV", vec![text("person")]),
        ("property", vec![text("name"), text("alice")]),
        ("properties", vec![]),
    ]));
    assert_eq!(
        executor.to_list(&mut store),
        Ok(vec![Value::VertexProperty(VertexProperty {
            key: "name".to_string(),
            value: PropertyValue::String("alice".to_string()),
        })])
    );
    assert_eq!(executor.result.vertices, IxResult::empty());
}

#[test]
fn count_keeps_the_live_terminator() {
    let mut store = memory_adapter("/data/graph".to_string());
    let mut executor = StepExecutor::new(program(vec![("count", vec![])]));
    assert_eq!(executor.done(&mut store), Err(Error::TerminatorMismatch));
    let mut twice = StepExecutor::new(program(vec![("V", vec![]), ("count", vec![]), ("count", vec![])]));
    assert_eq!(twice.done(&mut store), Err(Error::TerminatorMismatch));
    let mut overwritten = StepExecutor::new(program(vec![
        ("V", vec![]),
        ("count", vec![]),
        ("hasLabel", vec![text("x")]),
    ]));
    assert_eq!(overwritten.done(&mut store), Err(Error::TerminatorMismatch));
}

#[test]
fn failure_keeps_what_earlier_steps_did() {
    let mut store = memory_adapter("/data/graph".to_string());
    let mut executor = StepExecutor::new(program(vec![
        ("addV", vec![text("person")]),
        ("fly", vec![]),
        ("addV", vec![text("dog")]),
    ]));
    assert_eq!(executor.to_list(&mut store), Err(Error::UnsupportedOperator));
    assert_eq!(executor.next(&mut store), Err(Error::UnsupportedOperator));
    assert_eq!(store.db_instance.len(), 1);
    assert_eq!(
        executor.result.new_vertices.value,
        Value::List(vec![Value::Vertex(vertex(1, "person"))])
    );
}

#[test]
fn two_programs_on_one_store_both_persist() {
    let mut store = memory_adapter("/data/graph".to_string());
    let mut first = StepExecutor::new(program(vec![("addV", vec![text("a")]), ("addV", vec![text("b")])]));
    let mut second = StepExecutor::new(program(vec![("addV", vec![text("c")]), ("addV", vec![text("d")])]));
    let steps_first = program(vec![("addV", vec![text("a")]), ("addV", vec![text("b")])]);
    let steps_second = program(vec![("addV", vec![text("c")]), ("addV", vec![text("d")])]);
    assert_eq!(first.step(&mut store, &steps_first.steps()[0]), Ok(()));
    assert_eq!(second.step(&mut store, &steps_second.steps()[0]), Ok(()));
    assert_eq!(first.step(&mut store, &steps_first.steps()[1]), Ok(()));
    assert_eq!(second.step(&mut store, &steps_second.steps()[1]), Ok(()));
    assert_eq!(
        first.result.new_vertices.value,
        Value::List(vec![Value::Vertex(vertex(1, "a")), Value::Vertex(vertex(3, "b"))])
    );
    assert_eq!(
        second.result.new_vertices.value,
        Value::List(vec![Value::Vertex(vertex(2, "c")), Value::Vertex(vertex(4, "d"))])
    );
    let all = run_list(&mut store, vec![("V", vec![])]).unwrap();
    assert_eq!(
        all,
        vec![
            Value::Vertex(vertex(1, "a")),
            Value::Vertex(vertex(2, "c")),
            Value::Vertex(vertex(3, "b")),
            Value::Vertex(vertex(4, "d")),
        ]
    );
}

#[test]
fn step_failure_changes_nothing() {
    let mut store = store_with_labels(&["a"]);
    let mut executor = StepExecutor::new(Bytecode::new());
    let read = Instruction::new("V".to_string(), vec![]);
    assert_eq!(executor.step(&mut store, &read), Ok(()));
    let before = executor.result.clone();
    let bad = Instruction::new("property".to_string(), vec![text("k"), Value::Null]);
    assert_eq!(executor.step(&mut store, &bad), Err(Error::TypeConversionError));
    assert_eq!(executor.result, before);
    assert_eq!(run_list(&mut store, vec![("V", vec![])]), Ok(vec![Value::Vertex(vertex(1, "a"))]));
}

#[test]
fn fold_needs_the_created_vertex() {
    let mut store = memory_adapter("/data/graph".to_string());
    assert_eq!(
        run_list(
            &mut store,
            vec![
                ("addV", vec![text("a")]),
                ("hasLabel", vec![text("b")]),
                ("property", vec![text("k"), text("v")]),
            ]
        ),
        Err(Error::NotFound)
    );
}

#[test]
fn source_value_reads_slots_by_name() {
    let mut store = store_with_labels(&["a"]);
    let mut executor = StepExecutor::new(program(vec![("V", vec![]), ("count", vec![])]));
    assert_eq!(executor.done(&mut store), Ok(Value::Int64(1)));
    assert_eq!(executor.source_value("V"), Ok(Value::List(vec![Value::Vertex(vertex(1, "a"))])));
    assert_eq!(executor.source_value("addV"), Ok(Value::List(vec![])));
    assert_eq!(
        executor.source_value("count"),
        Ok(Value::Terminator(traversal_engine::value::TerminatorToken::Vertex))
    );
    assert_eq!(executor.source_value("nothing"), Err(Error::UnsupportedOperator));
}

#[test]
fn executor_shows_its_state() {
    let mut store = store_with_labels(&["a", "b"]);
    let steps = vec![("V", vec![]), ("count", vec![])];
    let mut executor = StepExecutor::new(program(steps.clone()));
    assert_eq!(executor.bytecode(), &program(steps));
    assert_eq!(executor.terminator(), traversal_engine::value::TerminatorToken::Null);
    assert_eq!(executor.source(), None);
    assert_eq!(executor.iter_index(), 0);
    assert_eq!(executor.done(&mut store), Ok(Value::Int64(2)));
    assert_eq!(executor.terminator(), traversal_engine::value::TerminatorToken::Int64);
    assert_eq!(executor.source(), Some(Operator::V));
    assert_eq!(executor.next(&mut store), Err(Error::TypeConversionError));
    assert_eq!(executor.iter_index(), 0);
}

#[test]
fn program_runs_on_loaded_entries() {
    let mut first = memory_adapter("/data/graph".to_string());
    run_list(&mut first, vec![("addV", vec![text("person"), text("name"), text("al")])]).unwrap();
    let engine = MemoryEngine::from_entries(first.db_instance.entries()).unwrap();
    let mut second = StorageAdapter::new(
        traversal_engine::storage::StorageAdapterName::EchoDB,
        "/data/copy".to_string(),
        engine,
        traversal_engine::storage::StorageVariant::KeyValueStore,
    )
    .unwrap();
    let mut executor = StepExecutor::new(program(vec![("V", vec![]), ("properties", vec![text("name")])]));
    assert_eq!(
        executor.to_list(&mut second),
        Ok(vec![Value::VertexProperty(VertexProperty {
            key: "name".to_string(),
            value: PropertyValue::String("al".to_string()),
        })])
    );
}
