//! Reading back what was written: a record made by `encode_vertex` is read
//! by `decode_vertex` as the vertex it was made from.

use vstd::prelude::*;
use vstd::bytes::*;
use vstd::utf8::*;
use crate::codec::{
    bias, decode_vertex, encode_properties, encode_property, encode_scalar, encode_scalars,
    encode_text, encode_u64, encode_vertex, parse_properties, parse_property, parse_scalar,
    parse_scalars, parse_text, parse_u64, property_fits, scalar_fits, text_fits, unbias,
    vertex_fits,
};
use crate::value::{PropertyValueView, PropertyView, VertexView};

verus! {

/// A part of what stands at `at` stands at its own place.
proof fn lemma_part(b: Seq<u8>, at: int, whole: Seq<u8>, from: int, to: int)
    requires
        0 <= at,
        at + whole.len() <= b.len(),
        b.subrange(at, at + whole.len()) == whole,
        0 <= from <= to <= whole.len(),
    ensures
        b.subrange(at + from, at + to) == whole.subrange(from, to),
{
    assert forall|i: int| 0 <= i < to - from implies b.subrange(at + from, at + to)[i]
        == whole.subrange(from, to)[i] by {
        assert(b.subrange(at, at + whole.len())[from + i] == b[at + from + i]);
    }
    assert(b.subrange(at + from, at + to) =~= whole.subrange(from, to));
}

/// A number is read back.
pub proof fn lemma_u64_roundtrip(b: Seq<u8>, at: int, x: u64)
    requires
        0 <= at,
        at + 8 <= b.len(),
        b.subrange(at, at + 8) == encode_u64(x),
    ensures
        parse_u64(b, at) == Some((x, at + 8)),
{
    lemma_auto_spec_u64_to_from_le_bytes();
}

/// A text is read back.
pub proof fn lemma_text_roundtrip(b: Seq<u8>, at: int, s: Seq<char>)
    requires
        0 <= at,
        text_fits(s),
        at + encode_text(s).len() <= b.len(),
        b.subrange(at, at + encode_text(s).len()) == encode_text(s),
    ensures
        encode_text(s).len() == 8 + encode_utf8(s).len(),
        parse_text(b, at) == Some((s, at + encode_text(s).len())),
{
    lemma_auto_spec_u64_to_from_le_bytes();
    let raw = encode_utf8(s);
    let n = raw.len() as u64;
    let whole = encode_text(s);
    assert(whole.len() == 8 + raw.len());
    lemma_part(b, at, whole, 0, 8);
    assert(whole.subrange(0, 8) =~= encode_u64(n));
    lemma_u64_roundtrip(b, at, n);
    lemma_part(b, at, whole, 8, whole.len() as int);
    assert(whole.subrange(8, whole.len() as int) =~= raw);
    encode_utf8_valid_utf8(s);
    encode_utf8_decode_utf8(s);
}

/// The number of bytes of a written property value.
pub open spec fn scalar_len(v: PropertyValueView) -> int {
    encode_scalar(v).len() as int
}

/// A property value is read back.
pub proof fn lemma_scalar_roundtrip(b: Seq<u8>, at: int, v: PropertyValueView)
    requires
        0 <= at,
        scalar_fits(v),
        at + encode_scalar(v).len() <= b.len(),
        b.subrange(at, at + encode_scalar(v).len()) == encode_scalar(v),
    ensures
        encode_scalar(v).len() >= 1,
        parse_scalar(b, at) == Some((v, at + encode_scalar(v).len())),
{
    lemma_auto_spec_u64_to_from_le_bytes();
    let whole = encode_scalar(v);
    assert(b.subrange(at, at + whole.len())[0] == b[at]);
    match v {
        PropertyValueView::Boolean(flag) => {},
        PropertyValueView::Int64(i) => {
            lemma_part(b, at, whole, 1, 9);
            assert(whole.subrange(1, 9) =~= encode_u64(bias(i)));
            lemma_u64_roundtrip(b, at + 1, bias(i));
            assert(unbias(bias(i)) == i);
        },
        PropertyValueView::String(s) => {
            assert(whole.len() == 1 + encode_text(s).len());
            lemma_part(b, at, whole, 1, whole.len() as int);
            assert(whole.subrange(1, whole.len() as int) =~= encode_text(s));
            lemma_text_roundtrip(b, at + 1, s);
        },
    }
}

/// Property values written one after the other are read back.
pub proof fn lemma_scalars_roundtrip(b: Seq<u8>, at: int, vs: Seq<PropertyValueView>)
    requires
        0 <= at,
        forall|i: int| 0 <= i < vs.len() ==> scalar_fits(#[trigger] vs[i]),
        at + encode_scalars(vs).len() <= b.len(),
        b.subrange(at, at + encode_scalars(vs).len()) == encode_scalars(vs),
    ensures
        parse_scalars(b, at, vs.len()) == Some((vs, at + encode_scalars(vs).len())),
    decreases vs.len(),
{
    if vs.len() == 0 {
        assert(vs =~= Seq::empty());
    } else {
        let whole = encode_scalars(vs);
        let head = encode_scalar(vs[0]);
        let tail = encode_scalars(vs.skip(1));
        assert(whole == head + tail);
        lemma_part(b, at, whole, 0, head.len() as int);
        assert(whole.subrange(0, head.len() as int) =~= head);
        lemma_scalar_roundtrip(b, at, vs[0]);
        lemma_part(b, at, whole, head.len() as int, whole.len() as int);
        assert(whole.subrange(head.len() as int, whole.len() as int) =~= tail);
        assert forall|i: int| 0 <= i < vs.skip(1).len() implies scalar_fits(
            #[trigger] vs.skip(1)[i],
        ) by {
            assert(vs.skip(1)[i] == vs[i + 1]);
        }
        lemma_scalars_roundtrip(b, at + head.len(), vs.skip(1));
        assert(seq![vs[0]] + vs.skip(1) =~= vs);
    }
}

/// A property is read back.
pub proof fn lemma_property_roundtrip(b: Seq<u8>, at: int, p: PropertyView)
    requires
        0 <= at,
        property_fits(p),
        at + encode_property(p).len() <= b.len(),
        b.subrange(at, at + encode_property(p).len()) == encode_property(p),
    ensures
        parse_property(b, at) == Some((p, at + encode_property(p).len())),
{
    lemma_auto_spec_u64_to_from_le_bytes();
    let whole = encode_property(p);
    let key = encode_text(p.key);
    let count = encode_u64(p.values.len() as u64);
    let values = encode_scalars(p.values);
    assert(whole == key + count + values);
    lemma_part(b, at, whole, 0, key.len() as int);
    assert(whole.subrange(0, key.len() as int) =~= key);
    lemma_text_roundtrip(b, at, p.key);
    lemma_part(b, at, whole, key.len() as int, (key.len() + 8) as int);
    assert(whole.subrange(key.len() as int, (key.len() + 8) as int) =~= count);
    lemma_u64_roundtrip(b, at + key.len(), p.values.len() as u64);
    lemma_part(b, at, whole, (key.len() + 8) as int, whole.len() as int);
    assert(whole.subrange((key.len() + 8) as int, whole.len() as int) =~= values);
    lemma_scalars_roundtrip(b, at + (key.len() + 8) as int, p.values);
}

/// Properties written one after the other are read back.
pub proof fn lemma_properties_roundtrip(b: Seq<u8>, at: int, ps: Seq<PropertyView>)
    requires
        0 <= at,
        forall|i: int| 0 <= i < ps.len() ==> property_fits(#[trigger] ps[i]),
        at + encode_properties(ps).len() <= b.len(),
        b.subrange(at, at + encode_properties(ps).len()) == encode_properties(ps),
    ensures
        parse_properties(b, at, ps.len()) == Some((ps, at + encode_properties(ps).len())),
    decreases ps.len(),
{
    if ps.len() == 0 {
        assert(ps =~= Seq::empty());
    } else {
        let whole = encode_properties(ps);
        let head = encode_property(ps[0]);
        let tail = encode_properties(ps.skip(1));
        assert(whole == head + tail);
        lemma_part(b, at, whole, 0, head.len() as int);
        assert(whole.subrange(0, head.len() as int) =~= head);
        lemma_property_roundtrip(b, at, ps[0]);
        lemma_part(b, at, whole, head.len() as int, whole.len() as int);
        assert(whole.subrange(head.len() as int, whole.len() as int) =~= tail);
        assert forall|i: int| 0 <= i < ps.skip(1).len() implies property_fits(
            #[trigger] ps.skip(1)[i],
        ) by {
            assert(ps.skip(1)[i] == ps[i + 1]);
        }
        lemma_properties_roundtrip(b, at + head.len(), ps.skip(1));
        assert(seq![ps[0]] + ps.skip(1) =~= ps);
    }
}

/// The record of a vertex is read back, under the vertex's identifier, as
/// the vertex.
pub proof fn lemma_vertex_roundtrip(v: VertexView)
    requires
        vertex_fits(v),
    ensures
        decode_vertex(v.id, encode_vertex(v)) == Some(v),
{
    lemma_auto_spec_u64_to_from_le_bytes();
    let whole = encode_vertex(v);
    let label = encode_text(v.label);
    let count = encode_u64(v.properties.len() as u64);
    let properties = encode_properties(v.properties);
    assert(whole == label + count + properties);
    assert(whole.subrange(0, whole.len() as int) =~= whole);
    lemma_part(whole, 0, whole, 0, label.len() as int);
    assert(whole.subrange(0, label.len() as int) =~= label);
    lemma_text_roundtrip(whole, 0, v.label);
    lemma_part(whole, 0, whole, label.len() as int, (label.len() + 8) as int);
    assert(whole.subrange(label.len() as int, (label.len() + 8) as int) =~= count);
    lemma_u64_roundtrip(whole, label.len() as int, v.properties.len() as u64);
    lemma_part(whole, 0, whole, (label.len() + 8) as int, whole.len() as int);
    assert(whole.subrange((label.len() + 8) as int, whole.len() as int) =~= properties);
    lemma_properties_roundtrip(whole, (label.len() + 8) as int, v.properties);
}

} // verus!
