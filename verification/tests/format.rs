use shardsink::namegen::NameAllocator;
use shardsink::record::{Record, RecordKind, record_line};
use shardsink::text::file_name;
use std::collections::HashSet;

#[test]
fn first_names_are_zero_padded() {
    let mut alloc = NameAllocator::new();
    assert_eq!(alloc.next_name(), b"elements_00000.txt.gz".to_vec());
    assert_eq!(alloc.next_name(), b"elements_00001.txt.gz".to_vec());
    assert_eq!(alloc.next_name(), b"elements_00002.txt.gz".to_vec());
}

#[test]
fn names_match_padded_decimal_for_every_width() {
    for n in [0u64, 9, 10, 99, 100, 999, 1000, 9999, 10000, 99999] {
        let expected = format!("elements_{:05}.txt.gz", n);
        assert_eq!(file_name(n), expected.as_bytes().to_vec());
    }
}

#[test]
fn names_beyond_five_digits_are_unpadded() {
    assert_eq!(file_name(100000), b"elements_100000.txt.gz".to_vec());
    assert_eq!(file_name(123456), b"elements_123456.txt.gz".to_vec());
    assert_eq!(file_name(u64::MAX), format!("elements_{}.txt.gz", u64::MAX).into_bytes());
}

#[test]
fn ten_thousand_identifiers_are_distinct_and_contiguous() {
    let mut alloc = NameAllocator::new();
    let mut seen: HashSet<Vec<u8>> = HashSet::new();
    for i in 0..10000u64 {
        let name = alloc.next_name();
        assert_eq!(name, format!("elements_{:05}.txt.gz", i).into_bytes());
        assert!(seen.insert(name));
    }
    assert_eq!(seen.len(), 10000);
}

#[test]
fn record_lines_have_kind_space_id_newline() {
    let node = Record { kind: RecordKind::Node, id: 1 };
    assert_eq!(record_line(&node), b"node 1\n".to_vec());
    let way = Record { kind: RecordKind::Way, id: 10 };
    assert_eq!(record_line(&way), b"way 10\n".to_vec());
    let rel = Record { kind: RecordKind::Relation, id: 20 };
    assert_eq!(record_line(&rel), b"relation 20\n".to_vec());
}

#[test]
fn record_lines_handle_zero_and_negative_ids() {
    let zero = Record { kind: RecordKind::Node, id: 0 };
    assert_eq!(record_line(&zero), b"node 0\n".to_vec());
    let neg = Record { kind: RecordKind::Way, id: -5 };
    assert_eq!(record_line(&neg), b"way -5\n".to_vec());
    let min = Record { kind: RecordKind::Relation, id: i64::MIN };
    assert_eq!(record_line(&min), format!("relation {}\n", i64::MIN).into_bytes());
    let max = Record { kind: RecordKind::Node, id: i64::MAX };
    assert_eq!(record_line(&max), format!("node {}\n", i64::MAX).into_bytes());
}
