//! The values that flow through a traversal: scalars, lists, graph elements
//! and control tokens, each with the mathematical value it stands for.

use vstd::prelude::*;
use crate::error::Error;

verus! {

/// How many values a property key may hold, and what a write does to them.
#[derive(Clone, Copy, Debug, PartialEq, Eq, Structural)]
pub enum Cardinality {
    /// A write replaces whatever the key held.
    Single,
    /// A write appends; equal values may repeat.
    List,
    /// A write appends unless an equal value is already held.
    Distinct,
}

/// The shape that the next consumer of the stream should expect.
#[derive(Clone, Copy, Debug, PartialEq, Eq, Structural)]
pub enum TerminatorToken {
    Null,
    Vertex,
    Edge,
    VertexProperty,
    Int64,
}

/// A value that a property can hold.
#[derive(Debug, PartialEq, Eq)]
pub enum PropertyValue {
    Boolean(bool),
    Int64(i64),
    String(String),
}

/// What a `PropertyValue` stands for.
pub enum PropertyValueView {
    Boolean(bool),
    Int64(i64),
    String(Seq<char>),
}

impl View for PropertyValue {
    type V = PropertyValueView;

    open spec fn view(&self) -> PropertyValueView {
        match self {
            PropertyValue::Boolean(b) => PropertyValueView::Boolean(*b),
            PropertyValue::Int64(i) => PropertyValueView::Int64(*i),
            PropertyValue::String(s) => PropertyValueView::String(s@),
        }
    }
}

impl Clone for PropertyValue {
    fn clone(&self) -> (copy: PropertyValue)
        ensures
            copy@ == self@,
    {
        match self {
            PropertyValue::Boolean(b) => PropertyValue::Boolean(*b),
            PropertyValue::Int64(i) => PropertyValue::Int64(*i),
            PropertyValue::String(s) => PropertyValue::String(s.clone()),
        }
    }
}

impl PropertyValue {
    /// Whether two property values stand for the same value.
    pub fn same(&self, other: &PropertyValue) -> (equal: bool)
        ensures
            equal == (self@ == other@),
    {
        match (self, other) {
            (PropertyValue::Boolean(a), PropertyValue::Boolean(b)) => *a == *b,
            (PropertyValue::Int64(a), PropertyValue::Int64(b)) => *a == *b,
            (PropertyValue::String(a), PropertyValue::String(b)) => *a == *b,
            _ => false,
        }
    }

    /// The runtime value with the same content.
    pub fn to_value(&self) -> (value: Value)
        ensures
            value@ == scalar_value(self@),
    {
        match self {
            PropertyValue::Boolean(b) => Value::Boolean(*b),
            PropertyValue::Int64(i) => Value::Int64(*i),
            PropertyValue::String(s) => Value::String(s.clone()),
        }
    }

    /// The property value with the content of a boolean, integer or string
    /// value. Any other value is refused with `TypeConversionError`.
    pub fn from_value(value: &Value) -> (converted: Result<PropertyValue, Error>)
        ensures
            match converted {
                Ok(p) => as_scalar(value@) == Some(p@),
                Err(e) => e == Error::TypeConversionError && as_scalar(value@) is None,
            },
    {
        match value {
            Value::Boolean(b) => Ok(PropertyValue::Boolean(*b)),
            Value::Int64(i) => Ok(PropertyValue::Int64(*i)),
            Value::String(s) => Ok(PropertyValue::String(s.clone())),
            _ => Err(Error::TypeConversionError),
        }
    }
}

/// The runtime value that holds a given scalar.
pub open spec fn scalar_value(p: PropertyValueView) -> ValueView {
    match p {
        PropertyValueView::Boolean(b) => ValueView::Boolean(b),
        PropertyValueView::Int64(i) => ValueView::Int64(i),
        PropertyValueView::String(s) => ValueView::String(s),
    }
}

/// The scalar that a runtime value holds, if it holds one.
pub open spec fn as_scalar(v: ValueView) -> Option<PropertyValueView> {
    match v {
        ValueView::Boolean(b) => Some(PropertyValueView::Boolean(b)),
        ValueView::Int64(i) => Some(PropertyValueView::Int64(i)),
        ValueView::String(s) => Some(PropertyValueView::String(s)),
        _ => None,
    }
}

/// One property of an element: a key and the values it holds, in order.
#[derive(Debug, PartialEq, Eq)]
pub struct Property {
    pub key: String,
    pub values: Vec<PropertyValue>,
}

/// What a `Property` stands for.
pub struct PropertyView {
    pub key: Seq<char>,
    pub values: Seq<PropertyValueView>,
}

/// The views of a sequence of property values, in order.
pub open spec fn scalar_views(values: Seq<PropertyValue>) -> Seq<PropertyValueView> {
    Seq::new(values.len(), |i: int| values[i]@)
}

/// The views of a sequence of properties, in order.
pub open spec fn property_views(properties: Seq<Property>) -> Seq<PropertyView> {
    Seq::new(properties.len(), |i: int| properties[i]@)
}

impl View for Property {
    type V = PropertyView;

    open spec fn view(&self) -> PropertyView {
        PropertyView { key: self.key@, values: scalar_views(self.values@) }
    }
}

/// A deep copy of a list of property values.
pub fn clone_scalars(values: &Vec<PropertyValue>) -> (copy: Vec<PropertyValue>)
    ensures
        scalar_views(copy@) == scalar_views(values@),
{
    let mut copy: Vec<PropertyValue> = Vec::new();
    let mut i: usize = 0;
    while i < values.len()
        invariant
            i <= values.len(),
            copy@.len() == i,
            forall|j: int| 0 <= j < i ==> copy@[j]@ == values@[j]@,
        decreases values.len() - i,
    {
        copy.push(values[i].clone());
        i += 1;
    }
    assert(scalar_views(copy@) =~= scalar_views(values@));
    copy
}

impl Clone for Property {
    fn clone(&self) -> (copy: Property)
        ensures
            copy@ == self@,
    {
        Property { key: self.key.clone(), values: clone_scalars(&self.values) }
    }
}

/// A deep copy of a list of properties.
pub fn clone_properties(properties: &Vec<Property>) -> (copy: Vec<Property>)
    ensures
        property_views(copy@) == property_views(properties@),
{
    let mut copy: Vec<Property> = Vec::new();
    let mut i: usize = 0;
    while i < properties.len()
        invariant
            i <= properties.len(),
            copy@.len() == i,
            forall|j: int| 0 <= j < i ==> copy@[j]@ == properties@[j]@,
        decreases properties.len() - i,
    {
        copy.push(properties[i].clone());
        i += 1;
    }
    assert(property_views(copy@) =~= property_views(properties@));
    copy
}

/// A vertex: its identity, its label and its properties. No two entries of
/// `properties` made through this library share a key.
#[derive(Debug, PartialEq, Eq)]
pub struct Vertex {
    pub id: i64,
    pub label: String,
    pub properties: Vec<Property>,
}

/// What a `Vertex` stands for.
pub struct VertexView {
    pub id: i64,
    pub label: Seq<char>,
    pub properties: Seq<PropertyView>,
}

impl View for Vertex {
    type V = VertexView;

    open spec fn view(&self) -> VertexView {
        VertexView { id: self.id, label: self.label@, properties: property_views(self.properties@) }
    }
}

impl Clone for Vertex {
    fn clone(&self) -> (copy: Vertex)
        ensures
            copy@ == self@,
    {
        Vertex {
            id: self.id,
            label: self.label.clone(),
            properties: clone_properties(&self.properties),
        }
    }
}

/// The views of a sequence of vertices, in order.
pub open spec fn vertex_views(vertices: Seq<Vertex>) -> Seq<VertexView> {
    Seq::new(vertices.len(), |i: int| vertices[i]@)
}

/// An edge between two vertices. The engine carries edges as data only.
#[derive(Debug, PartialEq, Eq)]
pub struct Edge {
    pub id: i64,
    pub label: String,
    pub out_vertex_id: i64,
    pub in_vertex_id: i64,
    pub properties: Vec<Property>,
}

/// What an `Edge` stands for.
pub struct EdgeView {
    pub id: i64,
    pub label: Seq<char>,
    pub out_vertex_id: i64,
    pub in_vertex_id: i64,
    pub properties: Seq<PropertyView>,
}

impl View for Edge {
    type V = EdgeView;

    open spec fn view(&self) -> EdgeView {
        EdgeView {
            id: self.id,
            label: self.label@,
            out_vertex_id: self.out_vertex_id,
            in_vertex_id: self.in_vertex_id,
            properties: property_views(self.properties@),
        }
    }
}

impl Clone for Edge {
    fn clone(&self) -> (copy: Edge)
        ensures
            copy@ == self@,
    {
        Edge {
            id: self.id,
            label: self.label.clone(),
            out_vertex_id: self.out_vertex_id,
            in_vertex_id: self.in_vertex_id,
            properties: clone_properties(&self.properties),
        }
    }
}

/// One value of one property of a vertex.
#[derive(Debug, PartialEq, Eq)]
pub struct VertexProperty {
    pub key: String,
    pub value: PropertyValue,
}

/// What a `VertexProperty` stands for.
pub struct VertexPropertyView {
    pub key: Seq<char>,
    pub value: PropertyValueView,
}

impl View for VertexProperty {
    type V = VertexPropertyView;

    open spec fn view(&self) -> VertexPropertyView {
        VertexPropertyView { key: self.key@, value: self.value@ }
    }
}

impl Clone for VertexProperty {
    fn clone(&self) -> (copy: VertexProperty)
        ensures
            copy@ == self@,
    {
        VertexProperty { key: self.key.clone(), value: self.value.clone() }
    }
}

/// A runtime value.
#[derive(Debug, PartialEq, Eq)]
pub enum Value {
    Null,
    Boolean(bool),
    Int64(i64),
    String(String),
    List(Vec<Value>),
    Vertex(Vertex),
    Edge(Edge),
    VertexProperty(VertexProperty),
    Cardinality(Cardinality),
    Terminator(TerminatorToken),
}

/// What a `Value` stands for.
pub enum ValueView {
    Null,
    Boolean(bool),
    Int64(i64),
    String(Seq<char>),
    List(Seq<ValueView>),
    Vertex(VertexView),
    Edge(EdgeView),
    VertexProperty(VertexPropertyView),
    Cardinality(Cardinality),
    Terminator(TerminatorToken),
}

/// The mathematical value that a runtime value stands for.
pub open spec fn value_view(v: Value) -> ValueView
    decreases v,
{
    match v {
        Value::Null => ValueView::Null,
        Value::Boolean(b) => ValueView::Boolean(b),
        Value::Int64(i) => ValueView::Int64(i),
        Value::String(s) => ValueView::String(s@),
        Value::List(items) => ValueView::List(
            Seq::new(
                items@.len(),
                |i: int|
                    if 0 <= i < items@.len() {
                        value_view(items@[i])
                    } else {
                        ValueView::Null
                    },
            ),
        ),
        Value::Vertex(vertex) => ValueView::Vertex(vertex@),
        Value::Edge(edge) => ValueView::Edge(edge@),
        Value::VertexProperty(property) => ValueView::VertexProperty(property@),
        Value::Cardinality(c) => ValueView::Cardinality(c),
        Value::Terminator(t) => ValueView::Terminator(t),
    }
}

impl View for Value {
    type V = ValueView;

    open spec fn view(&self) -> ValueView {
        value_view(*self)
    }
}

/// The views of a sequence of values, in order.
pub open spec fn views(items: Seq<Value>) -> Seq<ValueView> {
    Seq::new(items.len(), |i: int| items[i]@)
}

/// The view of a list value is the list of the views of its items.
pub proof fn lemma_list_view(items: Vec<Value>)
    ensures
        Value::List(items)@ == ValueView::List(views(items@)),
{
    reveal_with_fuel(value_view, 2);
    assert(Value::List(items)@->List_0 =~= views(items@));
}

impl Clone for Value {
    fn clone(&self) -> (copy: Value)
        ensures
            copy@ == self@,
        decreases self, 1nat,
    {
        match self {
            Value::Null => Value::Null,
            Value::Boolean(b) => Value::Boolean(*b),
            Value::Int64(i) => Value::Int64(*i),
            Value::String(s) => Value::String(s.clone()),
            Value::List(items) => {
                let copy = Value::List(clone_values(items));
                proof {
                    lemma_list_view(copy->List_0);
                    lemma_list_view(*items);
                }
                copy
            },
            Value::Vertex(vertex) => Value::Vertex(vertex.clone()),
            Value::Edge(edge) => Value::Edge(edge.clone()),
            Value::VertexProperty(property) => Value::VertexProperty(property.clone()),
            Value::Cardinality(c) => Value::Cardinality(*c),
            Value::Terminator(t) => Value::Terminator(*t),
        }
    }
}

/// A deep copy of a list of values.
pub fn clone_values(items: &Vec<Value>) -> (copy: Vec<Value>)
    ensures
        views(copy@) == views(items@),
    decreases items, 0nat,
{
    let mut copy: Vec<Value> = Vec::new();
    let mut i: usize = 0;
    while i < items.len()
        invariant
            i <= items.len(),
            copy@.len() == i,
            forall|j: int| 0 <= j < i ==> copy@[j]@ == items@[j]@,
        decreases items.len() - i,
    {
        let item = items[i].clone();
        copy.push(item);
        i += 1;
    }
    assert(views(copy@) =~= views(items@));
    copy
}

/// The vertices as the items of a list.
pub open spec fn vertex_values(vertices: Seq<VertexView>) -> Seq<ValueView> {
    Seq::new(vertices.len(), |i: int| ValueView::Vertex(vertices[i]))
}

/// The vertices that a value lists, where it is a list of vertices.
pub open spec fn as_vertices(value: ValueView) -> Option<Seq<VertexView>> {
    match value {
        ValueView::List(items) => if forall|i: int|
            0 <= i < items.len() ==> (#[trigger] items[i]) is Vertex {
            Some(Seq::new(items.len(), |i: int| items[i]->Vertex_0))
        } else {
            None
        },
        _ => None,
    }
}

impl Value {
    /// The list of the given vertices.
    pub fn from_vertices(vertices: &Vec<Vertex>) -> (value: Value)
        ensures
            value@ == ValueView::List(vertex_values(vertex_views(vertices@))),
    {
        let mut items: Vec<Value> = Vec::new();
        let mut i: usize = 0;
        while i < vertices.len()
            invariant
                i <= vertices.len(),
                items@.len() == i,
                forall|j: int| 0 <= j < i ==> items@[j]@ == ValueView::Vertex(vertices@[j]@),
            decreases vertices.len() - i,
        {
            items.push(Value::Vertex(vertices[i].clone()));
            i += 1;
        }
        proof {
            lemma_list_view(items);
            assert(views(items@) =~= vertex_values(vertex_views(vertices@)));
        }
        Value::List(items)
    }

    /// The vertices that the value lists. A value that is no list, or lists
    /// anything but vertices, is refused with `TypeConversionError`.
    pub fn to_vertices(&self) -> (vertices: Result<Vec<Vertex>, Error>)
        ensures
            match vertices {
                Ok(list) => as_vertices(self@) == Some(vertex_views(list@)),
                Err(e) => e == Error::TypeConversionError && as_vertices(self@) is None,
            },
    {
        match self {
            Value::List(items) => {
                proof {
                    lemma_list_view(*items);
                }
                let mut vertices: Vec<Vertex> = Vec::new();
                let mut i: usize = 0;
                while i < items.len()
                    invariant
                        i <= items.len(),
                        vertices@.len() == i,
                        self@ == ValueView::List(views(items@)),
                        forall|j: int|
                            0 <= j < i ==> (#[trigger] views(items@)[j]) == ValueView::Vertex(
                                vertices@[j]@,
                            ),
                    decreases items.len() - i,
                {
                    match &items[i] {
                        Value::Vertex(vertex) => {
                            vertices.push(vertex.clone());
                        },
                        _ => {
                            assert(!(views(items@)[i as int] is Vertex));
                            return Err(Error::TypeConversionError);
                        },
                    }
                    i += 1;
                }
                assert(as_vertices(self@).unwrap() =~= vertex_views(vertices@));
                Ok(vertices)
            },
            _ => Err(Error::TypeConversionError),
        }
    }

    /// A copy of the items of a list. Any other value is refused with
    /// `TypeConversionError`.
    pub fn as_list(&self) -> (items: Result<Vec<Value>, Error>)
        ensures
            match items {
                Ok(list) => self@ == ValueView::List(views(list@)),
                Err(e) => e == Error::TypeConversionError && !(self@ is List),
            },
    {
        match self {
            Value::List(items) => {
                let copy = clone_values(items);
                proof {
                    lemma_list_view(*items);
                }
                Ok(copy)
            },
            _ => Err(Error::TypeConversionError),
        }
    }

    /// A copy of the text of a string. Any other value is refused with
    /// `TypeConversionError`.
    pub fn as_string(&self) -> (text: Result<String, Error>)
        ensures
            match text {
                Ok(s) => self@ == ValueView::String(s@),
                Err(e) => e == Error::TypeConversionError && !(self@ is String),
            },
    {
        match self {
            Value::String(s) => Ok(s.clone()),
            _ => Err(Error::TypeConversionError),
        }
    }

    /// The integer. Any other value is refused with `TypeConversionError`.
    pub fn as_int64(&self) -> (number: Result<i64, Error>)
        ensures
            match number {
                Ok(i) => self@ == ValueView::Int64(i),
                Err(e) => e == Error::TypeConversionError && !(self@ is Int64),
            },
    {
        match self {
            Value::Int64(i) => Ok(*i),
            _ => Err(Error::TypeConversionError),
        }
    }

    /// The boolean. Any other value is refused with `TypeConversionError`.
    pub fn as_boolean(&self) -> (flag: Result<bool, Error>)
        ensures
            match flag {
                Ok(b) => self@ == ValueView::Boolean(b),
                Err(e) => e == Error::TypeConversionError && !(self@ is Boolean),
            },
    {
        match self {
            Value::Boolean(b) => Ok(*b),
            _ => Err(Error::TypeConversionError),
        }
    }

    /// A copy of the vertex. Any other value is refused with
    /// `TypeConversionError`.
    pub fn as_vertex(&self) -> (vertex: Result<Vertex, Error>)
        ensures
            match vertex {
                Ok(v) => self@ == ValueView::Vertex(v@),
                Err(e) => e == Error::TypeConversionError && !(self@ is Vertex),
            },
    {
        match self {
            Value::Vertex(v) => Ok(v.clone()),
            _ => Err(Error::TypeConversionError),
        }
    }

    /// A copy of the edge. Any other value is refused with
    /// `TypeConversionError`.
    pub fn as_edge(&self) -> (edge: Result<Edge, Error>)
        ensures
            match edge {
                Ok(e) => self@ == ValueView::Edge(e@),
                Err(e) => e == Error::TypeConversionError && !(self@ is Edge),
            },
    {
        match self {
            Value::Edge(e) => Ok(e.clone()),
            _ => Err(Error::TypeConversionError),
        }
    }

    /// A copy of the vertex property. Any other value is refused with
    /// `TypeConversionError`.
    pub fn as_vertex_property(&self) -> (property: Result<VertexProperty, Error>)
        ensures
            match property {
                Ok(p) => self@ == ValueView::VertexProperty(p@),
                Err(e) => e == Error::TypeConversionError && !(self@ is VertexProperty),
            },
    {
        match self {
            Value::VertexProperty(p) => Ok(p.clone()),
            _ => Err(Error::TypeConversionError),
        }
    }

    /// The cardinality. Any other value is refused with
    /// `TypeConversionError`.
    pub fn as_cardinality(&self) -> (cardinality: Result<Cardinality, Error>)
        ensures
            match cardinality {
                Ok(c) => self@ == ValueView::Cardinality(c),
                Err(e) => e == Error::TypeConversionError && !(self@ is Cardinality),
            },
    {
        match self {
            Value::Cardinality(c) => Ok(*c),
            _ => Err(Error::TypeConversionError),
        }
    }

    /// The terminator token. Any other value is refused with
    /// `TypeConversionError`.
    pub fn as_terminator(&self) -> (token: Result<TerminatorToken, Error>)
        ensures
            match token {
                Ok(t) => self@ == ValueView::Terminator(t),
                Err(e) => e == Error::TypeConversionError && !(self@ is Terminator),
            },
    {
        match self {
            Value::Terminator(t) => Ok(*t),
            _ => Err(Error::TypeConversionError),
        }
    }

    /// Whether the value is a cardinality marker.
    pub fn is_cardinality(&self) -> (answer: bool)
        ensures
            answer == (self@ is Cardinality),
    {
        match self {
            Value::Cardinality(_) => true,
            _ => false,
        }
    }
}

} // verus!
