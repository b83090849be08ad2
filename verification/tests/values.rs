use traversal_engine::bytecode::{
    classify, is_reducing_barrier_step, is_streaming_source_step, Bytecode, Instruction, Operator,
    StepKind,
};
use traversal_engine::collector::StepCollector;
use traversal_engine::error::Error;
use traversal_engine::result::{ExecutionResult, IxResult};
use traversal_engine::text::{contains_text, text_eq};
use traversal_engine::value::{
    clone_values, Cardinality, Edge, Property, PropertyValue, TerminatorToken, Value, Vertex,
    VertexProperty,
};

fn vertex(id: i64, label: &str) -> Vertex {
    Vertex::new(id, label.to_string())
}

fn every_value() -> Vec<Value> {
    vec![
        Value::Null,
        Value::Boolean(true),
        Value::Int64(-4),
        Value::String("s".to_string()),
        Value::List(vec![Value::Int64(1), Value::List(vec![Value::Null])]),
        Value::Vertex(vertex(1, "v")),
        Value::Edge(Edge {
            id: 2,
            label: "e".to_string(),
            out_vertex_id: 1,
            in_vertex_id: 3,
            properties: vec![],
        }),
        Value::VertexProperty(VertexProperty { key: "k".to_string(), value: PropertyValue::Int64(1) }),
        Value::Cardinality(Cardinality::Distinct),
        Value::Terminator(TerminatorToken::Edge),
    ]
}

#[test]
fn clone_is_deep_and_equal() {
    let values = every_value();
    assert_eq!(clone_values(&values), values);
    for value in values.iter() {
        assert_eq!(&value.clone(), value);
    }
}

#[test]
fn conversions_accept_only_their_own_kind() {
    let values = every_value();
    for (i, value) in values.iter().enumerate() {
        assert_eq!(value.as_boolean(), if i == 1 { Ok(true) } else { Err(Error::TypeConversionError) });
        assert_eq!(value.as_int64(), if i == 2 { Ok(-4) } else { Err(Error::TypeConversionError) });
        assert_eq!(value.as_string(), if i == 3 { Ok("s".to_string()) } else { Err(Error::TypeConversionError) });
        assert_eq!(value.as_list().is_ok(), i == 4);
        assert_eq!(value.as_vertex(), if i == 5 { Ok(vertex(1, "v")) } else { Err(Error::TypeConversionError) });
        assert_eq!(value.as_edge().is_ok(), i == 6);
        assert_eq!(value.as_vertex_property().is_ok(), i == 7);
        assert_eq!(
            value.as_cardinality(),
            if i == 8 { Ok(Cardinality::Distinct) } else { Err(Error::TypeConversionError) }
        );
        assert_eq!(
            value.as_terminator(),
            if i == 9 { Ok(TerminatorToken::Edge) } else { Err(Error::TypeConversionError) }
        );
        assert_eq!(value.is_cardinality(), i == 8);
        assert_eq!(PropertyValue::from_value(value).is_ok(), (1..=3).contains(&i));
    }
    assert_eq!(values[4].as_list(), Ok(vec![Value::Int64(1), Value::List(vec![Value::Null])]));
}

#[test]
fn property_values_convert_both_ways() {
    for value in [Value::Boolean(false), Value::Int64(i64::MIN), Value::String("x".to_string())] {
        let scalar = PropertyValue::from_value(&value).unwrap();
        assert_eq!(scalar.to_value(), value);
        assert!(scalar.same(&scalar.clone()));
    }
    assert!(!PropertyValue::Int64(1).same(&PropertyValue::Int64(2)));
    assert!(!PropertyValue::Int64(1).same(&PropertyValue::Boolean(true)));
    assert!(!PropertyValue::String("1".to_string()).same(&PropertyValue::Int64(1)));
    assert!(PropertyValue::String("a".to_string()).same(&PropertyValue::String("a".to_string())));
    assert_eq!(PropertyValue::from_value(&Value::Null), Err(Error::TypeConversionError));
}

#[test]
fn vertex_lists_convert_both_ways() {
    let vertices = vec![vertex(1, "a"), vertex(2, "b")];
    let value = Value::from_vertices(&vertices);
    assert_eq!(value, Value::List(vec![Value::Vertex(vertex(1, "a")), Value::Vertex(vertex(2, "b"))]));
    assert_eq!(value.to_vertices(), Ok(vertices));
    assert_eq!(Value::List(vec![]).to_vertices(), Ok(vec![]));
    assert_eq!(
        Value::List(vec![Value::Vertex(vertex(1, "a")), Value::Null]).to_vertices(),
        Err(Error::TypeConversionError)
    );
    assert_eq!(Value::Vertex(vertex(1, "a")).to_vertices(), Err(Error::TypeConversionError));
}

#[test]
fn vertex_property_writes() {
    let mut v = vertex(1, "a");
    assert_eq!(v.find_property("k"), None);
    assert_eq!(v.property_values("k"), vec![]);
    v.set_property(Cardinality::Distinct, "k", PropertyValue::Int64(1));
    v.set_property(Cardinality::List, "j", PropertyValue::Int64(5));
    v.set_property(Cardinality::Distinct, "k", PropertyValue::Int64(1));
    v.set_property(Cardinality::List, "k", PropertyValue::Int64(1));
    assert_eq!(v.find_property("k"), Some(0));
    assert_eq!(v.find_property("j"), Some(1));
    assert_eq!(v.property_values("k"), vec![PropertyValue::Int64(1), PropertyValue::Int64(1)]);
    v.set_property(Cardinality::Single, "k", PropertyValue::Boolean(true));
    assert_eq!(
        v.properties,
        vec![
            Property { key: "k".to_string(), values: vec![PropertyValue::Boolean(true)] },
            Property { key: "j".to_string(), values: vec![PropertyValue::Int64(5)] },
        ]
    );
    assert_eq!(v.label, "a");
    let only_j = v.select(&vec!["j".to_string(), "x".to_string()]);
    assert_eq!(only_j.properties, vec![Property { key: "j".to_string(), values: vec![PropertyValue::Int64(5)] }]);
    assert_eq!(v.select(&vec![]).properties, vec![]);
}

#[test]
fn operators_are_classified() {
    for name in ["V", "E", "addV", "addE"] {
        assert_eq!(classify(name), Ok(StepKind::StreamingSource));
        assert!(is_streaming_source_step(name));
        assert!(!is_reducing_barrier_step(name));
    }
    assert_eq!(classify("count"), Ok(StepKind::ReducingBarrier));
    assert!(is_reducing_barrier_step("count"));
    assert!(!is_streaming_source_step("count"));
    for name in ["property", "properties", "hasLabel", "hasIds"] {
        assert_eq!(classify(name), Ok(StepKind::Elementwise));
        assert!(!is_streaming_source_step(name));
        assert!(!is_reducing_barrier_step(name));
    }
    for name in ["", "v", "addv", "Count", "has_label", "drop", "V "] {
        assert_eq!(classify(name), Err(Error::UnsupportedOperator));
        assert_eq!(Operator::parse(name), Err(Error::UnsupportedOperator));
        assert!(!is_streaming_source_step(name));
        assert!(!is_reducing_barrier_step(name));
    }
}

#[test]
fn operator_names_parse_back() {
    for operator in [
        Operator::V,
        Operator::E,
        Operator::AddV,
        Operator::AddE,
        Operator::Property,
        Operator::Properties,
        Operator::Count,
        Operator::HasLabel,
        Operator::HasIds,
    ] {
        assert_eq!(Operator::parse(operator.name()), Ok(operator));
    }
    assert_eq!(Operator::AddV.name(), "addV");
    assert_eq!(Operator::HasLabel.kind(), StepKind::Elementwise);
}

#[test]
fn bytecode_keeps_steps_in_order() {
    let mut bytecode = Bytecode::new();
    assert_eq!(bytecode.steps().len(), 0);
    bytecode.add_step("V".to_string(), vec![Value::Int64(1)]);
    bytecode.add_step("count".to_string(), vec![]);
    assert_eq!(
        bytecode.steps(),
        &vec![
            Instruction::new("V".to_string(), vec![Value::Int64(1)]),
            Instruction::new("count".to_string(), vec![]),
        ]
    );
    assert_eq!(bytecode.steps()[0].operator(), "V");
    assert_eq!(bytecode.steps()[0].args(), &vec![Value::Int64(1)]);
    assert_eq!(bytecode.clone(), bytecode);
}

#[test]
fn texts_compare_by_characters() {
    assert!(text_eq("", ""));
    assert!(text_eq("héllo", "héllo"));
    assert!(!text_eq("a", "b"));
    assert!(!text_eq("a", "ab"));
    assert!(!text_eq("ab", "a"));
    let names = vec!["x".to_string(), "yy".to_string()];
    assert!(contains_text(&names, "yy"));
    assert!(!contains_text(&names, "y"));
    assert!(!contains_text(&vec![], ""));
}

#[test]
fn failures_have_names() {
    assert_eq!(Error::UnsupportedOperator.describe(), "unsupported operator");
    assert_eq!(Error::TypeConversionError.describe(), "type conversion error");
    assert_eq!(Error::TerminatorMismatch.describe(), "terminator mismatch");
    assert_eq!(Error::TransactionReadOnly.describe(), "transaction is read-only");
    assert_eq!(Error::TransactionStateError.describe(), "transaction is no longer open");
    assert_eq!(Error::StorageConflict.describe(), "storage conflict");
    assert_eq!(Error::NotFound.describe(), "not found");
    assert_eq!(Error::CorruptRecord.describe(), "corrupt record");
    assert_eq!(Error::IdentifierExhausted.describe(), "identifier space exhausted");
    assert_eq!(Error::StorageFailure.describe(), "storage failure");
}

#[test]
fn accumulator_slots_by_operator() {
    let mut result = ExecutionResult::new();
    assert_eq!(result.vertices, IxResult::empty());
    assert_eq!(IxResult::empty().value, Value::List(vec![]));
    assert_eq!(IxResult::empty().operator, None);
    result.vertices = IxResult::new(Operator::V, Value::Int64(1));
    result.new_vertices = IxResult::new(Operator::AddV, Value::Int64(2));
    result.edges = IxResult::new(Operator::E, Value::Int64(3));
    result.new_edges = IxResult::new(Operator::AddE, Value::Int64(4));
    result.other = IxResult::new(Operator::Count, Value::Int64(5));
    assert_eq!(result.get_from_source(Operator::V).value, Value::Int64(1));
    assert_eq!(result.get_from_source(Operator::AddV).value, Value::Int64(2));
    assert_eq!(result.get_from_source(Operator::E).value, Value::Int64(3));
    assert_eq!(result.get_from_source(Operator::AddE).value, Value::Int64(4));
    for operator in [Operator::Count, Operator::Property, Operator::Properties, Operator::HasLabel, Operator::HasIds] {
        assert_eq!(result.get_from_source(operator).value, Value::Int64(5));
    }
    assert_eq!(result.clone(), result);
}

#[test]
fn collector_selects_by_terminator_and_source() {
    let mut result = ExecutionResult::new();
    let read = Value::List(vec![Value::Vertex(vertex(1, "a"))]);
    let mut created_vertex = vertex(2, "b");
    created_vertex.set_property(Cardinality::List, "k", PropertyValue::Int64(1));
    created_vertex.set_property(Cardinality::List, "k", PropertyValue::Int64(2));
    let created = Value::List(vec![Value::Vertex(created_vertex.clone())]);
    result.vertices = IxResult::new(Operator::V, read.clone());
    result.new_vertices = IxResult::new(Operator::AddV, created.clone());
    result.other = IxResult::new(Operator::Properties, Value::Vertex(created_vertex));

    let from_read = StepCollector::new(result.clone(), Some(Operator::V));
    assert_eq!(from_read.collect(&TerminatorToken::Vertex), Ok(read));
    assert_eq!(from_read.collect(&TerminatorToken::VertexProperty), Ok(Value::List(vec![])));
    assert_eq!(from_read.collect(&TerminatorToken::Edge), Err(Error::TerminatorMismatch));
    assert_eq!(from_read.collect(&TerminatorToken::Int64), Err(Error::TerminatorMismatch));
    assert_eq!(from_read.collect(&TerminatorToken::Null), Ok(Value::Null));

    let from_created = StepCollector::new(result.clone(), Some(Operator::AddV));
    assert_eq!(from_created.collect(&TerminatorToken::Vertex), Ok(created));
    let property = |value: i64| {
        Value::VertexProperty(VertexProperty { key: "k".to_string(), value: PropertyValue::Int64(value) })
    };
    assert_eq!(
        from_created.collect(&TerminatorToken::VertexProperty),
        Ok(Value::List(vec![property(1), property(2)]))
    );

    let nowhere = StepCollector::new(result.clone(), None);
    assert_eq!(nowhere.collect(&TerminatorToken::Vertex), Err(Error::TerminatorMismatch));
    assert_eq!(nowhere.collect(&TerminatorToken::VertexProperty), Err(Error::TerminatorMismatch));

    let edge = Value::Edge(Edge { id: 1, label: "e".to_string(), out_vertex_id: 1, in_vertex_id: 2, properties: vec![] });
    result.edges = IxResult::new(Operator::E, Value::List(vec![edge.clone(), edge.clone()]));
    result.other = IxResult::new(Operator::Count, Value::Terminator(TerminatorToken::Edge));
    let edges = StepCollector::new(result.clone(), Some(Operator::E));
    assert_eq!(edges.collect(&TerminatorToken::Edge), Ok(Value::List(vec![edge.clone(), edge])));
    assert_eq!(edges.collect(&TerminatorToken::Int64), Ok(Value::Int64(2)));
    result.edges = IxResult::new(Operator::E, Value::List(vec![Value::Null]));
    let not_edges = StepCollector::new(result, Some(Operator::E));
    assert_eq!(not_edges.collect(&TerminatorToken::Edge), Err(Error::TerminatorMismatch));
}
