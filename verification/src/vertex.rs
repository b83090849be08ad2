//! What writing and selecting properties does to a vertex.

use vstd::prelude::*;
use crate::text::{contains_text, text_eq, text_views};
use crate::value::{
    Cardinality, Property, PropertyValue, PropertyValueView, PropertyView, Vertex, VertexView,
    property_views, scalar_views,
};

verus! {

/// Whether some property has the key.
pub open spec fn has_key(ps: Seq<PropertyView>, key: Seq<char>) -> bool {
    exists|i: int| 0 <= i < ps.len() && (#[trigger] ps[i]).key == key
}

/// `i` is the first index at which the key stands.
pub open spec fn is_first_with_key(ps: Seq<PropertyView>, key: Seq<char>, i: int) -> bool {
    &&& 0 <= i < ps.len()
    &&& ps[i].key == key
    &&& forall|j: int| 0 <= j < i ==> (#[trigger] ps[j]).key != key
}

/// The first index at which the key stands, where some property has it.
pub open spec fn key_index(ps: Seq<PropertyView>, key: Seq<char>) -> int {
    choose|i: int| is_first_with_key(ps, key, i)
}

/// The values held under a key; none where no property has the key.
pub open spec fn values_of(ps: Seq<PropertyView>, key: Seq<char>) -> Seq<PropertyValueView> {
    if has_key(ps, key) {
        ps[key_index(ps, key)].values
    } else {
        Seq::empty()
    }
}

/// No two properties share a key.
pub open spec fn distinct_keys(ps: Seq<PropertyView>) -> bool {
    forall|i: int, j: int| 0 <= i < j < ps.len() ==> ps[i].key != ps[j].key
}

/// The values of a key after one more write.
pub open spec fn written(
    values: Seq<PropertyValueView>,
    cardinality: Cardinality,
    value: PropertyValueView,
) -> Seq<PropertyValueView> {
    match cardinality {
        Cardinality::Single => seq![value],
        Cardinality::List => values.push(value),
        Cardinality::Distinct => if values.contains(value) {
            values
        } else {
            values.push(value)
        },
    }
}

/// The properties after `value` is written under `key`: a key that is there
/// gets its values rewritten as the cardinality says, a new key is added at
/// the end with the one value.
pub open spec fn with_property(
    ps: Seq<PropertyView>,
    cardinality: Cardinality,
    key: Seq<char>,
    value: PropertyValueView,
) -> Seq<PropertyView> {
    if has_key(ps, key) {
        let i = key_index(ps, key);
        ps.update(i, PropertyView { key, values: written(ps[i].values, cardinality, value) })
    } else {
        ps.push(PropertyView { key, values: seq![value] })
    }
}

/// The properties whose key is one of `keys`, in their order.
pub open spec fn selected(ps: Seq<PropertyView>, keys: Seq<Seq<char>>) -> Seq<PropertyView> {
    ps.filter(|p: PropertyView| keys.contains(p.key))
}

/// The vertex with other properties.
pub open spec fn with_properties(v: VertexView, properties: Seq<PropertyView>) -> VertexView {
    VertexView { id: v.id, label: v.label, properties }
}

/// The first index with the key is the index that `key_index` names.
pub proof fn lemma_key_index(ps: Seq<PropertyView>, key: Seq<char>, i: int)
    requires
        is_first_with_key(ps, key, i),
    ensures
        has_key(ps, key),
        key_index(ps, key) == i,
{
    let k = key_index(ps, key);
    assert(is_first_with_key(ps, key, k));
    if k < i {
        assert(ps[k].key != key);
    } else if i < k {
        assert(ps[i].key != key);
    }
}

/// Whether `value` is one of `values`.
fn holds_value(values: &Vec<PropertyValue>, value: &PropertyValue) -> (found: bool)
    ensures
        found == scalar_views(values@).contains(value@),
{
    let mut i: usize = 0;
    while i < values.len()
        invariant
            i <= values.len(),
            forall|j: int| 0 <= j < i ==> values@[j]@ != value@,
        decreases values.len() - i,
    {
        if values[i].same(value) {
            assert(scalar_views(values@)[i as int] == value@);
            return true;
        }
        i += 1;
    }
    false
}

impl Vertex {
    /// A vertex without properties.
    pub fn new(id: i64, label: String) -> (vertex: Vertex)
        ensures
            vertex@ == (VertexView { id, label: label@, properties: Seq::empty() }),
    {
        let vertex = Vertex { id, label, properties: Vec::new() };
        assert(vertex@.properties =~= Seq::empty());
        vertex
    }

    /// The first index at which a property with the key stands.
    pub fn find_property(&self, key: &str) -> (found: Option<usize>)
        ensures
            match found {
                Some(i) => is_first_with_key(self@.properties, key@, i as int),
                None => !has_key(self@.properties, key@),
            },
    {
        let mut i: usize = 0;
        while i < self.properties.len()
            invariant
                i <= self.properties.len(),
                forall|j: int| 0 <= j < i ==> (#[trigger] self@.properties[j]).key != key@,
            decreases self.properties.len() - i,
        {
            if text_eq(self.properties[i].key.as_str(), key) {
                return Some(i);
            }
            i += 1;
        }
        None
    }

    /// A copy of the values held under a key; none where no property has it.
    pub fn property_values(&self, key: &str) -> (values: Vec<PropertyValue>)
        ensures
            scalar_views(values@) == values_of(self@.properties, key@),
    {
        match self.find_property(key) {
            Some(i) => {
                proof {
                    lemma_key_index(self@.properties, key@, i as int);
                }
                crate::value::clone_scalars(&self.properties[i].values)
            },
            None => {
                let values: Vec<PropertyValue> = Vec::new();
                assert(scalar_views(values@) =~= Seq::empty());
                values
            },
        }
    }

    /// Writes `value` under `key` as the cardinality says.
    pub fn set_property(&mut self, cardinality: Cardinality, key: &str, value: PropertyValue)
        ensures
            final(self)@ == with_properties(
                old(self)@,
                with_property(old(self)@.properties, cardinality, key@, value@),
            ),
    {
        match self.find_property(key) {
            Some(i) => {
                proof {
                    lemma_key_index(self@.properties, key@, i as int);
                }
                let mut property = self.properties.remove(i);
                let ghost before = scalar_views(property.values@);
                match cardinality {
                    Cardinality::Single => {
                        let mut values: Vec<PropertyValue> = Vec::new();
                        values.push(value);
                        property.values = values;
                    },
                    Cardinality::List => {
                        property.values.push(value);
                    },
                    Cardinality::Distinct => {
                        if !holds_value(&property.values, &value) {
                            property.values.push(value);
                        }
                    },
                }
                assert(scalar_views(property.values@) =~= written(before, cardinality, value@));
                self.properties.insert(i, property);
                assert(self@.properties =~= with_property(
                    old(self)@.properties,
                    cardinality,
                    key@,
                    value@,
                ));
            },
            None => {
                let mut values: Vec<PropertyValue> = Vec::new();
                values.push(value);
                let property = Property { key: key.to_owned(), values };
                assert(property@.values =~= seq![value@]);
                self.properties.push(property);
                assert(self@.properties =~= with_property(
                    old(self)@.properties,
                    cardinality,
                    key@,
                    value@,
                ));
            },
        }
    }

    /// The vertex with those of its properties only whose key is one of
    /// `keys`.
    pub fn select(&self, keys: &Vec<String>) -> (vertex: Vertex)
        ensures
            vertex@ == with_properties(self@, selected(self@.properties, text_views(keys@))),
    {
        let mut kept: Vec<Property> = Vec::new();
        let ghost all = self@.properties;
        let ghost wanted = |p: PropertyView| text_views(keys@).contains(p.key);
        let mut i: usize = 0;
        assert(all.take(0) =~= Seq::empty());
        while i < self.properties.len()
            invariant
                i <= self.properties.len(),
                all == self@.properties,
                wanted == |p: PropertyView| text_views(keys@).contains(p.key),
                property_views(kept@) == all.take(i as int).filter(wanted),
            decreases self.properties.len() - i,
        {
            proof {
                assert(all.take(i + 1).drop_last() =~= all.take(i as int));
                reveal(Seq::filter);
            }
            if contains_text(keys, self.properties[i].key.as_str()) {
                kept.push(self.properties[i].clone());
                assert(property_views(kept@) =~= all.take(i as int).filter(wanted).push(
                    all[i as int],
                ));
            }
            i += 1;
        }
        assert(all.take(i as int) =~= all);
        Vertex { id: self.id, label: self.label.clone(), properties: kept }
    }
}

} // verus!
