use traversal_engine::codec::{decode, encode};
use traversal_engine::value::{Property, PropertyValue, Vertex};

fn sample() -> Vertex {
    Vertex {
        id: 9,
        label: "ab".to_string(),
        properties: vec![
            Property {
                key: "k".to_string(),
                values: vec![
                    PropertyValue::Boolean(false),
                    PropertyValue::Boolean(true),
                    PropertyValue::Int64(-1),
                    PropertyValue::String("é".to_string()),
                ],
            },
            Property { key: "".to_string(), values: vec![] },
        ],
    }
}

fn sample_bytes() -> Vec<u8> {
    let mut bytes = vec![];
    bytes.extend([2, 0, 0, 0, 0, 0, 0, 0]);
    bytes.extend(*b"ab");
    bytes.extend([2, 0, 0, 0, 0, 0, 0, 0]);
    bytes.extend([1, 0, 0, 0, 0, 0, 0, 0]);
    bytes.extend(*b"k");
    bytes.extend([4, 0, 0, 0, 0, 0, 0, 0]);
    bytes.push(0);
    bytes.push(1);
    bytes.push(2);
    bytes.extend([0xff, 0xff, 0xff, 0xff, 0xff, 0xff, 0xff, 0x7f]);
    bytes.push(3);
    bytes.extend([2, 0, 0, 0, 0, 0, 0, 0]);
    bytes.extend([0xc3, 0xa9]);
    bytes.extend([0, 0, 0, 0, 0, 0, 0, 0]);
    bytes.extend([0, 0, 0, 0, 0, 0, 0, 0]);
    bytes
}

#[test]
fn record_has_the_documented_layout() {
    assert_eq!(encode(&sample()), sample_bytes());
}

#[test]
fn record_is_read_back() {
    assert_eq!(decode(9, &sample_bytes()), Some(sample()));
    assert_eq!(decode(9, &encode(&sample())), Some(sample()));
}

#[test]
fn identifier_comes_from_the_key() {
    let read = decode(-3, &sample_bytes()).unwrap();
    assert_eq!(read.id, -3);
    assert_eq!(read.label, "ab");
}

#[test]
fn integers_are_written_by_their_distance_from_the_least() {
    for (value, written) in [
        (i64::MIN, [0u8, 0, 0, 0, 0, 0, 0, 0]),
        (0, [0, 0, 0, 0, 0, 0, 0, 0x80]),
        (1, [1, 0, 0, 0, 0, 0, 0, 0x80]),
        (i64::MAX, [0xff, 0xff, 0xff, 0xff, 0xff, 0xff, 0xff, 0xff]),
    ] {
        let vertex = Vertex {
            id: 1,
            label: String::new(),
            properties: vec![Property { key: String::new(), values: vec![PropertyValue::Int64(value)] }],
        };
        let record = encode(&vertex);
        assert_eq!(&record[record.len() - 8..], &written);
        assert_eq!(record[record.len() - 9], 2);
        assert_eq!(decode(1, &record), Some(vertex));
    }
}

#[test]
fn empty_vertex_record() {
    let vertex = Vertex { id: 0, label: String::new(), properties: vec![] };
    assert_eq!(encode(&vertex), vec![0u8; 16]);
    assert_eq!(decode(0, &[0u8; 16]), Some(vertex));
}

#[test]
fn truncated_or_extended_records_are_refused() {
    let bytes = sample_bytes();
    for cut in 0..bytes.len() {
        assert_eq!(decode(9, &bytes[..cut]), None);
    }
    let mut longer = bytes.clone();
    longer.push(0);
    assert_eq!(decode(9, &longer), None);
    assert_eq!(decode(9, &[]), None);
}

#[test]
fn ill_formed_text_is_refused() {
    let mut bytes = vec![];
    bytes.extend([2, 0, 0, 0, 0, 0, 0, 0]);
    bytes.extend([0xc3, 0x28]);
    bytes.extend([0, 0, 0, 0, 0, 0, 0, 0]);
    assert_eq!(decode(1, &bytes), None);
    bytes[8] = b'o';
    bytes[9] = b'k';
    assert_eq!(decode(1, &bytes), Some(Vertex { id: 1, label: "ok".to_string(), properties: vec![] }));
}

#[test]
fn unknown_tag_is_refused() {
    let mut bytes = vec![];
    bytes.extend([0, 0, 0, 0, 0, 0, 0, 0]);
    bytes.extend([1, 0, 0, 0, 0, 0, 0, 0]);
    bytes.extend([0, 0, 0, 0, 0, 0, 0, 0]);
    bytes.extend([1, 0, 0, 0, 0, 0, 0, 0]);
    bytes.push(4);
    assert_eq!(decode(1, &bytes), None);
    let last = bytes.len() - 1;
    bytes[last] = 1;
    assert_eq!(
        decode(1, &bytes),
        Some(Vertex {
            id: 1,
            label: String::new(),
            properties: vec![Property { key: String::new(), values: vec![PropertyValue::Boolean(true)] }],
        })
    );
}

#[test]
fn huge_counts_are_refused() {
    let mut bytes = vec![];
    bytes.extend([0, 0, 0, 0, 0, 0, 0, 0]);
    bytes.extend([0xff; 8]);
    assert_eq!(decode(1, &bytes), None);
    let mut text = vec![];
    text.extend([0xff; 8]);
    text.extend([0; 8]);
    assert_eq!(decode(1, &text), None);
}
