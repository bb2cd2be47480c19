use machfind::scan::is_candidate;
use machfind::{architecture_slices, parse_identifier, scan, AddressWidth, BuildId, ScanError};

fn id(n: u8) -> BuildId {
    let mut bytes = [0u8; 16];
    for (i, b) in bytes.iter_mut().enumerate() {
        *b = n.wrapping_mul(17).wrapping_add(i as u8);
    }
    BuildId { bytes }
}

fn put32(out: &mut Vec<u8>, v: u32, big: bool) {
    if big {
        out.extend_from_slice(&v.to_be_bytes());
    } else {
        out.extend_from_slice(&v.to_le_bytes());
    }
}

fn record(out: &mut Vec<u8>, tag: u32, payload: &[u8], big: bool) {
    put32(out, tag, big);
    put32(out, 8 + payload.len() as u32, big);
    out.extend_from_slice(payload);
}

/// An image with the given declared count and records (tag, payload).
fn image(big: bool, wide: bool, count: u32, recs: &[(u32, Vec<u8>)]) -> Vec<u8> {
    let magic: u32 = match (big, wide) {
        (true, false) => 0xfeedface,
        (false, false) => 0xcefaedfe,
        (true, true) => 0xfeedfacf,
        (false, true) => 0xcffaedfe,
    };
    let mut out = magic.to_be_bytes().to_vec();
    out.extend_from_slice(&[7, 0, 0, 1, 3, 0, 0, 0, 2, 0, 0, 0]);
    put32(&mut out, count, big);
    out.extend_from_slice(&[0u8; 8]);
    if wide {
        out.extend_from_slice(&[0u8; 4]);
    }
    for (tag, payload) in recs {
        record(&mut out, *tag, payload, big);
    }
    out
}

fn single(big: bool, wide: bool, v: &BuildId) -> Vec<u8> {
    let recs = vec![(0x19u32, vec![0u8; 64]), (0x1bu32, v.bytes.to_vec()), (0x2u32, vec![1u8; 16])];
    image(big, wide, 3, &recs)
}

/// An aggregate with a 32-bit or a 64-bit index; entries are (offset, len).
fn aggregate(wide: bool, entries: &[(u64, u64)], payload: &[u8]) -> Vec<u8> {
    let mut out = if wide { vec![0xca, 0xfe, 0xba, 0xbf] } else { vec![0xca, 0xfe, 0xba, 0xbe] };
    put32(&mut out, entries.len() as u32, true);
    for (off, len) in entries {
        out.extend_from_slice(&[0u8; 8]);
        if wide {
            out.extend_from_slice(&off.to_be_bytes());
            out.extend_from_slice(&len.to_be_bytes());
            out.extend_from_slice(&[0u8; 8]);
        } else {
            put32(&mut out, *off as u32, true);
            put32(&mut out, *len as u32, true);
            out.extend_from_slice(&[0u8; 4]);
        }
    }
    out.extend_from_slice(payload);
    out
}

fn two_images(wide: bool, a: &[u8], b: &[u8]) -> Vec<u8> {
    let head = 8 + 2 * if wide { 32 } else { 20 };
    let entries = [(head as u64, a.len() as u64), ((head + a.len()) as u64, b.len() as u64)];
    let mut payload = a.to_vec();
    payload.extend_from_slice(b);
    aggregate(wide, &entries, &payload)
}

#[test]
fn single_image_yields_its_identifier() {
    for big in [false, true] {
        for wide in [false, true] {
            let buf = single(big, wide, &id(1));
            assert_eq!(scan(&buf), vec![id(1)]);
            assert!(machfind::scan::matches(&buf, &id(1)));
            assert!(!machfind::scan::matches(&buf, &id(2)));
        }
    }
}

#[test]
fn identifier_record_with_wrong_length_is_ignored() {
    let buf = image(false, true, 2, &[(0x1b, vec![5u8; 15]), (0x1b, id(4).bytes.to_vec())]);
    assert_eq!(scan(&buf), vec![id(4)]);
}

#[test]
fn aggregate_yields_both_identifiers() {
    for wide in [false, true] {
        let a = single(false, true, &id(1));
        let b = single(true, false, &id(2));
        let buf = two_images(wide, &a, &b);
        assert_eq!(scan(&buf), vec![id(1), id(2)]);
        assert!(machfind::scan::matches(&buf, &id(1)));
        assert!(machfind::scan::matches(&buf, &id(2)));
        assert!(!machfind::scan::matches(&buf, &id(3)));
    }
}

#[test]
fn aggregate_index_lists_slices_in_order() {
    let a = single(false, true, &id(1));
    let b = single(false, true, &id(2));
    let buf = two_images(false, &a, &b);
    let slices = architecture_slices(&buf, AddressWidth::Bits32);
    assert_eq!(slices.len(), 2);
    assert_eq!((slices[0].offset, slices[0].len), (48, a.len()));
    assert_eq!((slices[1].offset, slices[1].len), (48 + a.len(), b.len()));
}

#[test]
fn corrupt_slice_does_not_hide_its_sibling() {
    let a = single(false, true, &id(1));
    let entries = [(1000u64, 50u64), (48, a.len() as u64)];
    let buf = aggregate(false, &entries, &a);
    assert_eq!(architecture_slices(&buf, AddressWidth::Bits32).len(), 1);
    assert_eq!(scan(&buf), vec![id(1)]);
}

#[test]
fn truncated_index_keeps_entries_that_fit() {
    let a = single(false, true, &id(6));
    let mut buf = aggregate(false, &[(28, a.len() as u64)], &a);
    // declare three entries where only one stands
    buf[4..8].copy_from_slice(&3u32.to_be_bytes());
    assert_eq!(scan(&buf), vec![id(6)]);
}

#[test]
fn short_or_unknown_buffers_yield_nothing() {
    assert!(scan(&[]).is_empty());
    assert!(scan(&[0xfe, 0xed, 0xfa]).is_empty());
    assert!(scan(b"\x7fELF and more bytes that are not a container").is_empty());
    assert!(!machfind::scan::matches(&[0xca, 0xfe], &id(1)));
}

#[test]
fn count_beyond_buffer_yields_records_that_fit() {
    let mut buf = image(false, true, 40, &[(0x1b, id(7).bytes.to_vec()), (0x1b, id(8).bytes.to_vec())]);
    // the start of a third identifier record, cut short
    buf.extend_from_slice(&[0x1b, 0, 0, 0, 24, 0, 0, 0, 1, 2]);
    assert_eq!(scan(&buf), vec![id(7), id(8)]);
}

#[test]
fn record_shorter_than_its_header_ends_the_walk() {
    let mut buf = image(true, false, 3, &[(0x1b, id(1).bytes.to_vec())]);
    buf.extend_from_slice(&[0, 0, 0, 0x1b, 0, 0, 0, 4]);
    record(&mut buf, 0x1b, &id(2).bytes, true);
    assert_eq!(scan(&buf), vec![id(1)]);
}

#[test]
fn image_header_cut_short_yields_nothing() {
    let buf = single(false, true, &id(1));
    assert!(scan(&buf[..30]).is_empty());
}

#[test]
fn scanning_twice_gives_the_same_result() {
    let buf = two_images(false, &single(false, false, &id(1)), &single(false, true, &id(2)));
    assert_eq!(scan(&buf), scan(&buf));
}

#[test]
fn identifier_text_parses_to_its_bytes() {
    let v = parse_identifier("123e4567-e89b-12d3-a456-426614174000").unwrap();
    assert_eq!(
        v.bytes,
        [0x12, 0x3e, 0x45, 0x67, 0xe8, 0x9b, 0x12, 0xd3, 0xa4, 0x56, 0x42, 0x66, 0x14, 0x17, 0x40, 0x00]
    );
    assert_eq!(parse_identifier("not-an-identifier").err(), Some(ScanError::InvalidTargetIdentifier));
    assert_eq!(parse_identifier("").err(), Some(ScanError::InvalidTargetIdentifier));
}

#[test]
fn identifiers_compare_by_bytes() {
    assert!(id(3).same_as(&id(3)));
    assert!(!id(3).same_as(&id(4)));
    assert_eq!(id(5), id(5));
    assert_ne!(id(5), id(6));
}

#[test]
fn candidates_are_non_empty_regular_files() {
    assert!(is_candidate(true, 1));
    assert!(!is_candidate(true, 0));
    assert!(!is_candidate(false, 10));
}

/// The four files of a small tree, in the order a walk would meet them.
fn tree() -> Vec<(&'static str, Vec<u8>)> {
    let target = parse_identifier("123e4567-e89b-12d3-a456-426614174000").unwrap();
    let one = parse_identifier("00000000-0000-0000-0000-000000000001").unwrap();
    vec![
        ("root/empty", vec![]),
        ("root/notes.txt", b"arbitrary bytes, not a container".to_vec()),
        ("root/sub/single", single(false, true, &target)),
        ("root/sub/fat", two_images(false, &single(false, true, &one), &single(false, false, &target))),
    ]
}

fn search(text: &str) -> Result<Vec<&'static str>, ScanError> {
    let target = parse_identifier(text)?;
    Ok(tree()
        .into_iter()
        .filter(|(_, bytes)| is_candidate(true, bytes.len() as u64) && machfind::scan::matches(bytes, &target))
        .map(|(name, _)| name)
        .collect())
}

#[test]
fn tree_search_finds_single_and_aggregate() {
    assert_eq!(search("123e4567-e89b-12d3-a456-426614174000"), Ok(vec!["root/sub/single", "root/sub/fat"]));
}

#[test]
fn tree_search_for_absent_identifier_finds_nothing() {
    assert_eq!(search("123e4567-e89b-12d3-a456-426614174999"), Ok(vec![]));
}

#[test]
fn tree_search_with_invalid_identifier_fails_first() {
    assert_eq!(search("123e4567-zzzz"), Err(ScanError::InvalidTargetIdentifier));
}
