//! The result collector: the one value that the accumulator yields for the
//! terminator that was live when the program ended.

use vstd::prelude::*;
use crate::bytecode::Operator;
use crate::error::Error;
use crate::result::{ExecutionResult, ExecutionResultView};
use crate::value::{
    Property, PropertyView, TerminatorToken, Value, ValueView, Vertex, VertexProperty,
    VertexPropertyView, VertexView, as_vertices, lemma_list_view, property_views, vertex_views,
    views,
};

verus! {

/// The values of one property, each as a vertex property under the key.
pub open spec fn entries_of(p: PropertyView) -> Seq<ValueView> {
    Seq::new(
        p.values.len(),
        |i: int| ValueView::VertexProperty(VertexPropertyView { key: p.key, value: p.values[i] }),
    )
}

/// The vertex properties of a list of properties, key after key.
pub open spec fn properties_of(ps: Seq<PropertyView>) -> Seq<ValueView>
    decreases ps.len(),
{
    if ps.len() == 0 {
        Seq::empty()
    } else {
        properties_of(ps.drop_last()) + entries_of(ps.last())
    }
}

/// The vertex properties of a list of vertices, vertex after vertex.
pub open spec fn properties_of_all(vertices: Seq<VertexView>) -> Seq<ValueView>
    decreases vertices.len(),
{
    if vertices.len() == 0 {
        Seq::empty()
    } else {
        properties_of_all(vertices.drop_last()) + properties_of(vertices.last().properties)
    }
}

/// Whether the value is a list of edges.
pub open spec fn is_edge_list(value: ValueView) -> bool {
    match value {
        ValueView::List(items) => forall|i: int|
            0 <= i < items.len() ==> (#[trigger] items[i]) is Edge,
        _ => false,
    }
}

/// The elements that the accumulator holds for a terminator that names a
/// kind of element. The slot is the one of the streaming source that
/// established the stream; a slot that holds no list of that kind fails with
/// `TerminatorMismatch`.
pub open spec fn elements(
    result: ExecutionResultView,
    source: Option<Operator>,
    terminator: TerminatorToken,
) -> Result<Seq<ValueView>, Error> {
    match (terminator, source) {
        (TerminatorToken::Vertex, Some(Operator::V)) => listed_vertices(result.vertices.value),
        (TerminatorToken::Vertex, Some(Operator::AddV)) => listed_vertices(
            result.new_vertices.value,
        ),
        (TerminatorToken::Edge, Some(Operator::E)) => listed_edges(result.edges.value),
        (TerminatorToken::Edge, Some(Operator::AddE)) => listed_edges(result.new_edges.value),
        (TerminatorToken::VertexProperty, Some(Operator::V)) => match as_vertices(
            result.vertices.value,
        ) {
            Some(vertices) => Ok(properties_of_all(vertices)),
            None => Err(Error::TerminatorMismatch),
        },
        (TerminatorToken::VertexProperty, Some(Operator::AddV)) => match (
            result.other.operator,
            result.other.value,
        ) {
            (Some(Operator::Properties), ValueView::Vertex(vertex)) => Ok(
                properties_of(vertex.properties),
            ),
            _ => Err(Error::TerminatorMismatch),
        },
        _ => Err(Error::TerminatorMismatch),
    }
}

/// The items of a list of vertices.
pub open spec fn listed_vertices(value: ValueView) -> Result<Seq<ValueView>, Error> {
    if as_vertices(value) is Some {
        Ok(value->List_0)
    } else {
        Err(Error::TerminatorMismatch)
    }
}

/// The items of a list of edges.
pub open spec fn listed_edges(value: ValueView) -> Result<Seq<ValueView>, Error> {
    if is_edge_list(value) {
        Ok(value->List_0)
    } else {
        Err(Error::TerminatorMismatch)
    }
}

/// The value that a traversal yields. Without a terminator it is `Null`. For
/// a kind of element it is the list of those elements. For an integer it is
/// the number of elements of the kind that `count` kept in the shared slot.
pub open spec fn collected(
    result: ExecutionResultView,
    source: Option<Operator>,
    terminator: TerminatorToken,
) -> Result<ValueView, Error> {
    match terminator {
        TerminatorToken::Null => Ok(ValueView::Null),
        TerminatorToken::Int64 => match (result.other.operator, result.other.value) {
            (Some(Operator::Count), ValueView::Terminator(counted)) => match elements(
                result,
                source,
                counted,
            ) {
                Ok(items) => if items.len() <= i64::MAX {
                    Ok(ValueView::Int64(items.len() as i64))
                } else {
                    Err(Error::TypeConversionError)
                },
                Err(e) => Err(e),
            },
            _ => Err(Error::TerminatorMismatch),
        },
        _ => match elements(result, source, terminator) {
            Ok(items) => Ok(ValueView::List(items)),
            Err(e) => Err(e),
        },
    }
}

/// Adds the vertex properties of a list of properties at the end of `out`.
fn push_properties(out: &mut Vec<Value>, properties: &Vec<Property>)
    ensures
        views(final(out)@) == views(old(out)@) + properties_of(property_views(properties@)),
{
    let ghost all = property_views(properties@);
    let mut i: usize = 0;
    assert(all.take(0) =~= Seq::empty());
    assert(views(out@) =~= views(old(out)@) + properties_of(all.take(0)));
    while i < properties.len()
        invariant
            i <= properties.len(),
            all == property_views(properties@),
            views(out@) == views(old(out)@) + properties_of(all.take(i as int)),
        decreases properties.len() - i,
    {
        let property = &properties[i];
        let ghost start = views(out@);
        let mut j: usize = 0;
        while j < property.values.len()
            invariant
                j <= property.values.len(),
                property@ == all[i as int],
                views(out@) == start + entries_of(property@).take(j as int),
            decreases property.values.len() - j,
        {
            let ghost before = views(out@);
            out.push(
                Value::VertexProperty(
                    VertexProperty {
                        key: property.key.clone(),
                        value: property.values[j].clone(),
                    },
                ),
            );
            assert(views(out@) =~= before.push(entries_of(property@)[j as int]));
            assert(entries_of(property@).take(j + 1) =~= entries_of(property@).take(
                j as int,
            ).push(entries_of(property@)[j as int]));
            j += 1;
        }
        proof {
            assert(entries_of(property@).take(j as int) =~= entries_of(property@));
            assert(all.take(i + 1).drop_last() =~= all.take(i as int));
            assert(views(out@) =~= views(old(out)@) + properties_of(all.take(i + 1)));
        }
        i += 1;
    }
    assert(all.take(i as int) =~= all);
}

/// The vertex properties of a list of vertices, vertex after vertex.
fn flatten(vertices: &Vec<Vertex>) -> (out: Vec<Value>)
    ensures
        views(out@) == properties_of_all(vertex_views(vertices@)),
{
    let ghost all = vertex_views(vertices@);
    let mut out: Vec<Value> = Vec::new();
    let mut i: usize = 0;
    assert(all.take(0) =~= Seq::empty());
    assert(views(out@) =~= properties_of_all(all.take(0)));
    while i < vertices.len()
        invariant
            i <= vertices.len(),
            all == vertex_views(vertices@),
            views(out@) == properties_of_all(all.take(i as int)),
        decreases vertices.len() - i,
    {
        push_properties(&mut out, &vertices[i].properties);
        proof {
            assert(all.take(i + 1).drop_last() =~= all.take(i as int));
        }
        i += 1;
    }
    assert(all.take(i as int) =~= all);
    out
}

/// A copy of the items of a list of edges.
fn edge_items(value: &Value) -> (items: Result<Vec<Value>, Error>)
    ensures
        match items {
            Ok(list) => listed_edges(value@) == Ok::<Seq<ValueView>, Error>(views(list@)),
            Err(e) => e == Error::TerminatorMismatch && listed_edges(value@) is Err,
        },
{
    match value {
        Value::List(items) => {
            proof {
                lemma_list_view(*items);
            }
            let mut i: usize = 0;
            while i < items.len()
                invariant
                    i <= items.len(),
                    value@ == ValueView::List(views(items@)),
                    forall|j: int| 0 <= j < i ==> (#[trigger] views(items@)[j]) is Edge,
                decreases items.len() - i,
            {
                match &items[i] {
                    Value::Edge(_) => {},
                    _ => {
                        assert(!(views(items@)[i as int] is Edge));
                        return Err(Error::TerminatorMismatch);
                    },
                }
                i += 1;
            }
            Ok(crate::value::clone_values(items))
        },
        _ => Err(Error::TerminatorMismatch),
    }
}

/// A copy of the items of a list of vertices.
fn vertex_items(value: &Value) -> (items: Result<Vec<Value>, Error>)
    ensures
        match items {
            Ok(list) => listed_vertices(value@) == Ok::<Seq<ValueView>, Error>(views(list@)),
            Err(e) => e == Error::TerminatorMismatch && listed_vertices(value@) is Err,
        },
{
    match value.to_vertices() {
        Err(_) => Err(Error::TerminatorMismatch),
        Ok(_) => match value.as_list() {
            Ok(items) => Ok(items),
            Err(_) => Err(Error::TerminatorMismatch),
        },
    }
}

/// The collector of one finished run: its accumulator and the streaming
/// source that established its stream.
#[derive(Debug, PartialEq, Eq)]
pub struct StepCollector {
    pub result: ExecutionResult,
    pub source: Option<Operator>,
}

impl StepCollector {
    /// The collector of a run that ended with `result` and `source`.
    pub fn new(result: ExecutionResult, source: Option<Operator>) -> (collector: StepCollector)
        ensures
            collector.result@ == result@,
            collector.source == source,
    {
        StepCollector { result, source }
    }

    /// The elements that the accumulator holds for the terminator.
    fn elements(&self, terminator: &TerminatorToken) -> (items: Result<Vec<Value>, Error>)
        ensures
            match items {
                Ok(list) => elements(self.result@, self.source, *terminator) == Ok::<
                    Seq<ValueView>,
                    Error,
                >(views(list@)),
                Err(e) => elements(self.result@, self.source, *terminator) == Err::<
                    Seq<ValueView>,
                    Error,
                >(e),
            },
    {
        match (terminator, &self.source) {
            (TerminatorToken::Vertex, Some(Operator::V)) => vertex_items(
                &self.result.vertices.value,
            ),
            (TerminatorToken::Vertex, Some(Operator::AddV)) => vertex_items(
                &self.result.new_vertices.value,
            ),
            (TerminatorToken::Edge, Some(Operator::E)) => edge_items(&self.result.edges.value),
            (TerminatorToken::Edge, Some(Operator::AddE)) => edge_items(
                &self.result.new_edges.value,
            ),
            (TerminatorToken::VertexProperty, Some(Operator::V)) => {
                match self.result.vertices.value.to_vertices() {
                    Ok(vertices) => Ok(flatten(&vertices)),
                    Err(_) => Err(Error::TerminatorMismatch),
                }
            },
            (TerminatorToken::VertexProperty, Some(Operator::AddV)) => {
                match (&self.result.other.operator, &self.result.other.value) {
                    (Some(Operator::Properties), Value::Vertex(vertex)) => {
                        let mut out: Vec<Value> = Vec::new();
                        push_properties(&mut out, &vertex.properties);
                        assert(views(out@) =~= properties_of(vertex@.properties));
                        Ok(out)
                    },
                    _ => Err(Error::TerminatorMismatch),
                }
            },
            _ => Err(Error::TerminatorMismatch),
        }
    }

    /// The value that the traversal yields for the terminator.
    pub fn collect(&self, terminator: &TerminatorToken) -> (value: Result<Value, Error>)
        ensures
            match value {
                Ok(v) => collected(self.result@, self.source, *terminator) == Ok::<
                    ValueView,
                    Error,
                >(v@),
                Err(e) => collected(self.result@, self.source, *terminator) == Err::<
                    ValueView,
                    Error,
                >(e),
            },
    {
        match terminator {
            TerminatorToken::Null => Ok(Value::Null),
            TerminatorToken::Int64 => {
                match (&self.result.other.operator, &self.result.other.value) {
                    (Some(Operator::Count), Value::Terminator(counted)) => {
                        match self.elements(counted) {
                            Ok(items) => {
                                if items.len() as u64 <= i64::MAX as u64 {
                                    Ok(Value::Int64(items.len() as i64))
                                } else {
                                    Err(Error::TypeConversionError)
                                }
                            },
                            Err(e) => Err(e),
                        }
                    },
                    _ => Err(Error::TerminatorMismatch),
                }
            },
            _ => match self.elements(terminator) {
                Ok(items) => {
                    proof {
                        lemma_list_view(items);
                    }
                    Ok(Value::List(items))
                },
                Err(e) => Err(e),
            },
        }
    }
}

} // verus!
