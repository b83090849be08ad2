//! The record format of a stored vertex: how its label and properties become
//! bytes, and how bytes are read back.
//!
//! A number is eight bytes, least significant first. A text is the number of
//! its UTF-8 bytes, then those bytes. A property value is a tag byte and what
//! the tag announces. A property is its key, the number of its values, and the
//! values. A vertex record is the label, the number of properties, and the
//! properties; the identifier is the key under which the record is stored.

use vstd::prelude::*;
use vstd::bytes::*;
use vstd::slice::*;
use vstd::string::*;
use vstd::utf8::*;
use crate::value::{
    Property, PropertyValue, PropertyValueView, PropertyView, Vertex, VertexView, property_views,
    scalar_views,
};

verus! {

/// The tag of the boolean `false`.
pub const TAG_FALSE: u8 = 0;

/// The tag of the boolean `true`.
pub const TAG_TRUE: u8 = 1;

/// The tag of an integer; eight bytes follow.
pub const TAG_INT64: u8 = 2;

/// The tag of a string; a text follows.
pub const TAG_STRING: u8 = 3;

/// The distance between a signed integer and the number written for it.
pub const BIAS: u64 = 0x8000_0000_0000_0000;

/// The bytes of a number.
pub open spec fn encode_u64(x: u64) -> Seq<u8> {
    spec_u64_to_le_bytes(x)
}

/// The number that stands at `at`, and where it ends.
pub open spec fn parse_u64(b: Seq<u8>, at: int) -> Option<(u64, int)> {
    if 0 <= at && at + 8 <= b.len() {
        Some((spec_u64_from_le_bytes(b.subrange(at, at + 8)), at + 8))
    } else {
        None
    }
}

/// The number written for a signed integer: the integer above the least one.
pub open spec fn bias(i: i64) -> u64 {
    (i + BIAS) as u64
}

/// The signed integer that a written number stands for.
pub open spec fn unbias(u: u64) -> i64 {
    (u - BIAS) as i64
}

/// The bytes of a text.
pub open spec fn encode_text(s: Seq<char>) -> Seq<u8> {
    encode_u64(encode_utf8(s).len() as u64) + encode_utf8(s)
}

/// The text that stands at `at`, and where it ends.
pub open spec fn parse_text(b: Seq<u8>, at: int) -> Option<(Seq<char>, int)> {
    match parse_u64(b, at) {
        Some((n, start)) => if start + n <= b.len() && valid_utf8(b.subrange(start, start + n)) {
            Some((decode_utf8(b.subrange(start, start + n)), start + n))
        } else {
            None
        },
        None => None,
    }
}

/// The bytes of a property value.
pub open spec fn encode_scalar(v: PropertyValueView) -> Seq<u8> {
    match v {
        PropertyValueView::Boolean(flag) => seq![if flag { TAG_TRUE } else { TAG_FALSE }],
        PropertyValueView::Int64(i) => seq![TAG_INT64] + encode_u64(bias(i)),
        PropertyValueView::String(s) => seq![TAG_STRING] + encode_text(s),
    }
}

/// The property value that stands at `at`, and where it ends.
pub open spec fn parse_scalar(b: Seq<u8>, at: int) -> Option<(PropertyValueView, int)> {
    if 0 <= at < b.len() {
        let tag = b[at];
        if tag == TAG_FALSE {
            Some((PropertyValueView::Boolean(false), at + 1))
        } else if tag == TAG_TRUE {
            Some((PropertyValueView::Boolean(true), at + 1))
        } else if tag == TAG_INT64 {
            match parse_u64(b, at + 1) {
                Some((u, end)) => Some((PropertyValueView::Int64(unbias(u)), end)),
                None => None,
            }
        } else if tag == TAG_STRING {
            match parse_text(b, at + 1) {
                Some((s, end)) => Some((PropertyValueView::String(s), end)),
                None => None,
            }
        } else {
            None
        }
    } else {
        None
    }
}

/// The bytes of property values, one after the other.
pub open spec fn encode_scalars(vs: Seq<PropertyValueView>) -> Seq<u8>
    decreases vs.len(),
{
    if vs.len() == 0 {
        Seq::empty()
    } else {
        encode_scalar(vs[0]) + encode_scalars(vs.skip(1))
    }
}

/// The `n` property values that stand at `at`, and where they end.
pub open spec fn parse_scalars(b: Seq<u8>, at: int, n: nat) -> Option<
    (Seq<PropertyValueView>, int),
>
    decreases n,
{
    if n == 0 {
        Some((Seq::empty(), at))
    } else {
        match parse_scalar(b, at) {
            Some((v, next)) => match parse_scalars(b, next, (n - 1) as nat) {
                Some((vs, end)) => Some((seq![v] + vs, end)),
                None => None,
            },
            None => None,
        }
    }
}

/// The bytes of a property.
pub open spec fn encode_property(p: PropertyView) -> Seq<u8> {
    encode_text(p.key) + encode_u64(p.values.len() as u64) + encode_scalars(p.values)
}

/// The property that stands at `at`, and where it ends.
pub open spec fn parse_property(b: Seq<u8>, at: int) -> Option<(PropertyView, int)> {
    match parse_text(b, at) {
        Some((key, after_key)) => match parse_u64(b, after_key) {
            Some((n, after_count)) => match parse_scalars(b, after_count, n as nat) {
                Some((values, end)) => Some((PropertyView { key, values }, end)),
                None => None,
            },
            None => None,
        },
        None => None,
    }
}

/// The bytes of properties, one after the other.
pub open spec fn encode_properties(ps: Seq<PropertyView>) -> Seq<u8>
    decreases ps.len(),
{
    if ps.len() == 0 {
        Seq::empty()
    } else {
        encode_property(ps[0]) + encode_properties(ps.skip(1))
    }
}

/// The `n` properties that stand at `at`, and where they end.
pub open spec fn parse_properties(b: Seq<u8>, at: int, n: nat) -> Option<(Seq<PropertyView>, int)>
    decreases n,
{
    if n == 0 {
        Some((Seq::empty(), at))
    } else {
        match parse_property(b, at) {
            Some((p, next)) => match parse_properties(b, next, (n - 1) as nat) {
                Some((ps, end)) => Some((seq![p] + ps, end)),
                None => None,
            },
            None => None,
        }
    }
}

/// The record of a vertex.
pub open spec fn encode_vertex(v: VertexView) -> Seq<u8> {
    encode_text(v.label) + encode_u64(v.properties.len() as u64) + encode_properties(v.properties)
}

/// The vertex that a record stored under `id` stands for, if the record is
/// one: a label, a count and that many properties, with nothing left over.
pub open spec fn decode_vertex(id: i64, b: Seq<u8>) -> Option<VertexView> {
    match parse_text(b, 0) {
        Some((label, after_label)) => match parse_u64(b, after_label) {
            Some((n, after_count)) => match parse_properties(b, after_count, n as nat) {
                Some((properties, end)) => if end == b.len() {
                    Some(VertexView { id, label, properties })
                } else {
                    None
                },
                None => None,
            },
            None => None,
        },
        None => None,
    }
}

/// Whether the number of UTF-8 bytes of a text can be written as a number.
pub open spec fn text_fits(s: Seq<char>) -> bool {
    encode_utf8(s).len() <= u64::MAX
}

/// Whether a property value can be written.
pub open spec fn scalar_fits(v: PropertyValueView) -> bool {
    match v {
        PropertyValueView::String(s) => text_fits(s),
        _ => true,
    }
}

/// Whether a property can be written: its key and each value can, and the
/// number of its values can be written as a number.
pub open spec fn property_fits(p: PropertyView) -> bool {
    &&& text_fits(p.key)
    &&& p.values.len() <= u64::MAX
    &&& forall|i: int| 0 <= i < p.values.len() ==> scalar_fits(#[trigger] p.values[i])
}

/// Whether a vertex can be written: its label and each property can, and
/// the number of its properties can be written as a number.
pub open spec fn vertex_fits(v: VertexView) -> bool {
    &&& text_fits(v.label)
    &&& v.properties.len() <= u64::MAX
    &&& forall|i: int| 0 <= i < v.properties.len() ==> property_fits(#[trigger] v.properties[i])
}

/// `String::from_utf8` of std: the text that the bytes spell, where they are
/// well-formed UTF-8, and nothing where they are not.
#[verifier::external_body]
fn text_from_utf8(bytes: Vec<u8>) -> (text: Option<String>)
    ensures
        match text {
            Some(s) => valid_utf8(bytes@) && s@ == decode_utf8(bytes@),
            None => !valid_utf8(bytes@),
        },
{
    match String::from_utf8(bytes) {
        Ok(s) => Some(s),
        Err(_) => None,
    }
}

/// Adds `bytes` at the end of `out`.
fn append(out: &mut Vec<u8>, bytes: &[u8])
    ensures
        final(out)@ == old(out)@ + bytes@,
{
    let mut i: usize = 0;
    while i < bytes.len()
        invariant
            i <= bytes@.len(),
            out@ == old(out)@ + bytes@.take(i as int),
        decreases bytes.len() - i,
    {
        out.push(bytes[i]);
        assert(bytes@.take(i + 1) =~= bytes@.take(i as int).push(bytes@[i as int]));
        i += 1;
    }
    assert(bytes@.take(i as int) =~= bytes@);
}

/// Adds a number at the end of `out`.
fn write_u64(out: &mut Vec<u8>, x: u64)
    ensures
        final(out)@ == old(out)@ + encode_u64(x),
{
    let bytes = u64_to_le_bytes(x);
    append(out, bytes.as_slice());
}

/// Adds a text at the end of `out`.
fn write_text(out: &mut Vec<u8>, s: &str)
    ensures
        final(out)@ == old(out)@ + encode_text(s@),
        text_fits(s@),
{
    let bytes = s.as_bytes();
    write_u64(out, bytes.len() as u64);
    append(out, bytes);
    assert(out@ =~= old(out)@ + encode_text(s@));
}

/// The number written for a signed integer.
fn to_biased(i: i64) -> (u: u64)
    ensures
        u == bias(i),
{
    if i >= 0 {
        (i as u64) + BIAS
    } else {
        ((i + i64::MAX) + 1) as u64
    }
}

/// The signed integer that a written number stands for.
fn from_biased(u: u64) -> (i: i64)
    ensures
        i == unbias(u),
{
    if u >= BIAS {
        (u - BIAS) as i64
    } else {
        ((u as i64) - i64::MAX) - 1
    }
}

/// Adds a property value at the end of `out`.
fn write_scalar(out: &mut Vec<u8>, v: &PropertyValue)
    ensures
        final(out)@ == old(out)@ + encode_scalar(v@),
        scalar_fits(v@),
{
    match v {
        PropertyValue::Boolean(flag) => {
            out.push(if *flag { TAG_TRUE } else { TAG_FALSE });
            assert(out@ =~= old(out)@ + encode_scalar(v@));
        },
        PropertyValue::Int64(i) => {
            out.push(TAG_INT64);
            write_u64(out, to_biased(*i));
            assert(out@ =~= old(out)@ + encode_scalar(v@));
        },
        PropertyValue::String(s) => {
            out.push(TAG_STRING);
            write_text(out, s.as_str());
            assert(out@ =~= old(out)@ + encode_scalar(v@));
        },
    }
}

/// Adds property values, one after the other, at the end of `out`.
fn write_scalars(out: &mut Vec<u8>, values: &Vec<PropertyValue>)
    ensures
        final(out)@ == old(out)@ + encode_scalars(scalar_views(values@)),
        forall|i: int| 0 <= i < values@.len() ==> scalar_fits(#[trigger] scalar_views(values@)[i]),
{
    let ghost all = scalar_views(values@);
    let mut i: usize = 0;
    assert(all.skip(0) =~= all);
    while i < values.len()
        invariant
            i <= values.len(),
            all == scalar_views(values@),
            forall|j: int| 0 <= j < i ==> scalar_fits(#[trigger] all[j]),
            out@ + encode_scalars(all.skip(i as int)) == old(out)@ + encode_scalars(all),
        decreases values.len() - i,
    {
        let ghost before = out@;
        write_scalar(out, &values[i]);
        proof {
            let rest = all.skip(i as int);
            assert(rest[0] == values@[i as int]@);
            assert(rest.skip(1) =~= all.skip(i + 1));
            assert(out@ + encode_scalars(all.skip(i + 1)) =~= before + encode_scalars(rest));
        }
        i += 1;
    }
    assert(out@ =~= out@ + encode_scalars(all.skip(i as int)));
}

/// Adds a property at the end of `out`.
fn write_property(out: &mut Vec<u8>, p: &Property)
    ensures
        final(out)@ == old(out)@ + encode_property(p@),
        property_fits(p@),
{
    write_text(out, p.key.as_str());
    write_u64(out, p.values.len() as u64);
    write_scalars(out, &p.values);
    assert(out@ =~= old(out)@ + encode_property(p@));
}

/// Adds properties, one after the other, at the end of `out`.
fn write_properties(out: &mut Vec<u8>, properties: &Vec<Property>)
    ensures
        final(out)@ == old(out)@ + encode_properties(property_views(properties@)),
        forall|i: int|
            0 <= i < properties@.len() ==> property_fits(#[trigger] property_views(properties@)[i]),
{
    let ghost all = property_views(properties@);
    let mut i: usize = 0;
    assert(all.skip(0) =~= all);
    while i < properties.len()
        invariant
            i <= properties.len(),
            all == property_views(properties@),
            forall|j: int| 0 <= j < i ==> property_fits(#[trigger] all[j]),
            out@ + encode_properties(all.skip(i as int)) == old(out)@ + encode_properties(all),
        decreases properties.len() - i,
    {
        let ghost before = out@;
        write_property(out, &properties[i]);
        proof {
            let rest = all.skip(i as int);
            assert(rest[0] == properties@[i as int]@);
            assert(rest.skip(1) =~= all.skip(i + 1));
            assert(out@ + encode_properties(all.skip(i + 1)) =~= before + encode_properties(rest));
        }
        i += 1;
    }
    assert(out@ =~= out@ + encode_properties(all.skip(i as int)));
}

/// The number that stands at `at`, and where it ends.
fn read_u64(bytes: &[u8], at: usize) -> (found: Option<(u64, usize)>)
    ensures
        match found {
            Some((x, end)) => parse_u64(bytes@, at as int) == Some((x, end as int)),
            None => parse_u64(bytes@, at as int) is None,
        },
{
    if bytes.len() < 8 || at > bytes.len() - 8 {
        return None;
    }
    let x = u64_from_le_bytes(slice_subrange(bytes, at, at + 8));
    Some((x, at + 8))
}

/// The text that stands at `at`, and where it ends.
fn read_text(bytes: &[u8], at: usize) -> (found: Option<(String, usize)>)
    ensures
        match found {
            Some((s, end)) => parse_text(bytes@, at as int) == Some((s@, end as int)),
            None => parse_text(bytes@, at as int) is None,
        },
{
    match read_u64(bytes, at) {
        None => None,
        Some((n, start)) => {
            if n > (bytes.len() - start) as u64 {
                return None;
            }
            let end = start + n as usize;
            let raw = slice_to_vec(slice_subrange(bytes, start, end));
            match text_from_utf8(raw) {
                Some(s) => Some((s, end)),
                None => None,
            }
        },
    }
}

/// The property value that stands at `at`, and where it ends.
fn read_scalar(bytes: &[u8], at: usize) -> (found: Option<(PropertyValue, usize)>)
    ensures
        match found {
            Some((v, end)) => parse_scalar(bytes@, at as int) == Some((v@, end as int)),
            None => parse_scalar(bytes@, at as int) is None,
        },
{
    if at >= bytes.len() {
        return None;
    }
    let tag = bytes[at];
    if tag == TAG_FALSE {
        Some((PropertyValue::Boolean(false), at + 1))
    } else if tag == TAG_TRUE {
        Some((PropertyValue::Boolean(true), at + 1))
    } else if tag == TAG_INT64 {
        match read_u64(bytes, at + 1) {
            Some((u, end)) => Some((PropertyValue::Int64(from_biased(u)), end)),
            None => None,
        }
    } else if tag == TAG_STRING {
        match read_text(bytes, at + 1) {
            Some((s, end)) => Some((PropertyValue::String(s), end)),
            None => None,
        }
    } else {
        None
    }
}

/// What was read so far, followed by what is read from here on.
pub open spec fn scalars_then(
    prefix: Seq<PropertyValueView>,
    rest: Option<(Seq<PropertyValueView>, int)>,
) -> Option<(Seq<PropertyValueView>, int)> {
    match rest {
        Some((vs, end)) => Some((prefix + vs, end)),
        None => None,
    }
}

/// The `n` property values that stand at `at`, and where they end.
fn read_scalars(bytes: &[u8], at: usize, n: u64) -> (found: Option<(Vec<PropertyValue>, usize)>)
    ensures
        match found {
            Some((vs, end)) => parse_scalars(bytes@, at as int, n as nat) == Some(
                (scalar_views(vs@), end as int),
            ),
            None => parse_scalars(bytes@, at as int, n as nat) is None,
        },
{
    let mut values: Vec<PropertyValue> = Vec::new();
    let mut pos: usize = at;
    let mut i: u64 = 0;
    assert(scalar_views(values@) + parse_scalars(bytes@, at as int, n as nat).unwrap().0
        =~= parse_scalars(bytes@, at as int, n as nat).unwrap().0);
    while i < n
        invariant
            i <= n,
            parse_scalars(bytes@, at as int, n as nat) == scalars_then(
                scalar_views(values@),
                parse_scalars(bytes@, pos as int, (n - i) as nat),
            ),
        decreases n - i,
    {
        match read_scalar(bytes, pos) {
            None => {
                return None;
            },
            Some((v, next)) => {
                proof {
                    let tail = parse_scalars(bytes@, next as int, (n - i - 1) as nat);
                    if tail is Some {
                        assert(scalar_views(values@.push(v)) + tail.unwrap().0 =~= scalar_views(
                            values@,
                        ) + (seq![v@] + tail.unwrap().0));
                    }
                }
                values.push(v);
                pos = next;
                i += 1;
            },
        }
    }
    assert(scalar_views(values@) + Seq::<PropertyValueView>::empty() =~= scalar_views(values@));
    Some((values, pos))
}

/// The property that stands at `at`, and where it ends.
fn read_property(bytes: &[u8], at: usize) -> (found: Option<(Property, usize)>)
    ensures
        match found {
            Some((p, end)) => parse_property(bytes@, at as int) == Some((p@, end as int)),
            None => parse_property(bytes@, at as int) is None,
        },
{
    match read_text(bytes, at) {
        None => None,
        Some((key, after_key)) => match read_u64(bytes, after_key) {
            None => None,
            Some((n, after_count)) => match read_scalars(bytes, after_count, n) {
                None => None,
                Some((values, end)) => Some((Property { key, values }, end)),
            },
        },
    }
}

/// What was read so far, followed by what is read from here on.
pub open spec fn properties_then(
    prefix: Seq<PropertyView>,
    rest: Option<(Seq<PropertyView>, int)>,
) -> Option<(Seq<PropertyView>, int)> {
    match rest {
        Some((ps, end)) => Some((prefix + ps, end)),
        None => None,
    }
}

/// The `n` properties that stand at `at`, and where they end.
fn read_properties(bytes: &[u8], at: usize, n: u64) -> (found: Option<(Vec<Property>, usize)>)
    ensures
        match found {
            Some((ps, end)) => parse_properties(bytes@, at as int, n as nat) == Some(
                (property_views(ps@), end as int),
            ),
            None => parse_properties(bytes@, at as int, n as nat) is None,
        },
{
    let mut properties: Vec<Property> = Vec::new();
    let mut pos: usize = at;
    let mut i: u64 = 0;
    assert(property_views(properties@) + parse_properties(bytes@, at as int, n as nat).unwrap().0
        =~= parse_properties(bytes@, at as int, n as nat).unwrap().0);
    while i < n
        invariant
            i <= n,
            parse_properties(bytes@, at as int, n as nat) == properties_then(
                property_views(properties@),
                parse_properties(bytes@, pos as int, (n - i) as nat),
            ),
        decreases n - i,
    {
        match read_property(bytes, pos) {
            None => {
                return None;
            },
            Some((p, next)) => {
                proof {
                    let tail = parse_properties(bytes@, next as int, (n - i - 1) as nat);
                    if tail is Some {
                        assert(property_views(properties@.push(p)) + tail.unwrap().0
                            =~= property_views(properties@) + (seq![p@] + tail.unwrap().0));
                    }
                }
                properties.push(p);
                pos = next;
                i += 1;
            },
        }
    }
    assert(property_views(properties@) + Seq::<PropertyView>::empty() =~= property_views(
        properties@,
    ));
    Some((properties, pos))
}

/// The vertex that a record stored under `id` stands for, if the record is
/// one.
pub fn decode(id: i64, record: &[u8]) -> (vertex: Option<Vertex>)
    ensures
        match vertex {
            Some(v) => decode_vertex(id, record@) == Some(v@),
            None => decode_vertex(id, record@) is None,
        },
{
    match read_text(record, 0) {
        None => None,
        Some((label, after_label)) => match read_u64(record, after_label) {
            None => None,
            Some((n, after_count)) => match read_properties(record, after_count, n) {
                None => None,
                Some((properties, end)) => {
                    if end == record.len() {
                        Some(Vertex { id, label, properties })
                    } else {
                        None
                    }
                },
            },
        },
    }
}

/// The record of a vertex.
pub fn encode(vertex: &Vertex) -> (record: Vec<u8>)
    ensures
        record@ == encode_vertex(vertex@),
        vertex_fits(vertex@),
{
    let mut record: Vec<u8> = Vec::new();
    write_text(&mut record, vertex.label.as_str());
    write_u64(&mut record, vertex.properties.len() as u64);
    write_properties(&mut record, &vertex.properties);
    assert(record@ =~= encode_vertex(vertex@));
    record
}

} // verus!
