use machfind::container::{FAT_MAGIC, FAT_MAGIC_64, MH_CIGAM_64, MH_MAGIC};
use machfind::image::LC_UUID;
use machfind::{
    check_slice, classify, container_kind, extract_identifier, next_record, AddressWidth,
    ArchSlice, ByteOrder, Cursor, ContainerKind, Record, ScanError,
};

#[test]
fn cursor_reads_in_both_orders() {
    let bytes = [0x01u8, 0x02, 0x03, 0x04, 0x05, 0x06, 0x07, 0x08];
    let mut c = Cursor::new(&bytes);
    assert_eq!(c.read_u32(ByteOrder::Big), Ok(0x01020304));
    assert_eq!(c.read_u32(ByteOrder::Little), Ok(0x08070605));
    assert_eq!(c.position(), 8);
    assert_eq!(c.remaining(), 0);
}

#[test]
fn cursor_reads_64_bit_fields() {
    let bytes = [0x00u8, 0x00, 0x00, 0x01, 0x00, 0x00, 0x00, 0x02];
    let mut c = Cursor::new(&bytes);
    assert_eq!(c.read_u64(ByteOrder::Big), Ok(0x0000_0001_0000_0002));
    let mut d = Cursor::new(&bytes);
    assert_eq!(d.read_u64(ByteOrder::Little), Ok(0x0200_0000_0100_0000));
}

#[test]
fn cursor_truncated_read_keeps_position() {
    let bytes = [0xaau8, 0xbb, 0xcc];
    let mut c = Cursor::new(&bytes);
    assert_eq!(c.read_u32(ByteOrder::Big), Err(ScanError::Truncated));
    assert_eq!(c.position(), 0);
    assert_eq!(c.skip(2), Ok(()));
    assert_eq!(c.skip(2), Err(ScanError::Truncated));
    assert_eq!(c.position(), 2);
    assert_eq!(c.read_bytes(1), Ok(&bytes[2..3]));
    assert_eq!(c.read_bytes(1), Err(ScanError::Truncated));
    assert_eq!(c.seek(4), Err(ScanError::Truncated));
    assert_eq!(c.seek(3), Ok(()));
}

#[test]
fn magic_table() {
    assert_eq!(
        classify(MH_MAGIC),
        ContainerKind::SingleArchitecture { order: ByteOrder::Big, width: AddressWidth::Bits32 }
    );
    assert_eq!(
        classify(MH_CIGAM_64),
        ContainerKind::SingleArchitecture { order: ByteOrder::Little, width: AddressWidth::Bits64 }
    );
    assert_eq!(classify(FAT_MAGIC), ContainerKind::MultiArchitecture { width: AddressWidth::Bits32 });
    assert_eq!(classify(FAT_MAGIC_64), ContainerKind::MultiArchitecture { width: AddressWidth::Bits64 });
    assert_eq!(classify(0x7f454c46), ContainerKind::Unrecognized);
}

#[test]
fn container_kind_reads_magic_big_endian() {
    assert_eq!(
        container_kind(&[0xcf, 0xfa, 0xed, 0xfe, 0x07]),
        ContainerKind::SingleArchitecture { order: ByteOrder::Little, width: AddressWidth::Bits64 }
    );
    assert_eq!(container_kind(&[0xca, 0xfe, 0xba]), ContainerKind::Unrecognized);
    assert_eq!(container_kind(&[]), ContainerKind::Unrecognized);
}

#[test]
fn next_record_reads_tag_and_payload() {
    let bytes = [0x1bu8, 0, 0, 0, 12, 0, 0, 0, 9, 8, 7, 6, 0xff];
    let mut c = Cursor::new(&bytes);
    let rec = next_record(&mut c, ByteOrder::Little).unwrap();
    assert_eq!(rec.tag, LC_UUID);
    assert_eq!(rec.payload, &[9u8, 8, 7, 6][..]);
    assert_eq!(c.position(), 12);
    assert!(next_record(&mut c, ByteOrder::Little).is_err());
}

#[test]
fn next_record_rejects_short_and_overlong_lengths() {
    let short = [0x1bu8, 0, 0, 0, 4, 0, 0, 0];
    assert_eq!(next_record(&mut Cursor::new(&short), ByteOrder::Little).err(), Some(ScanError::Truncated));
    let long = [0x1bu8, 0, 0, 0, 40, 0, 0, 0, 1, 2, 3];
    assert_eq!(next_record(&mut Cursor::new(&long), ByteOrder::Little).err(), Some(ScanError::Truncated));
}

#[test]
fn extractor_needs_tag_and_sixteen_bytes() {
    let payload: Vec<u8> = (1u8..=16).collect();
    let id = extract_identifier(&Record { tag: LC_UUID, payload: &payload }).unwrap();
    assert_eq!(id.bytes.to_vec(), payload);
    assert!(extract_identifier(&Record { tag: 0x19, payload: &payload }).is_none());
    assert!(extract_identifier(&Record { tag: LC_UUID, payload: &payload[..15] }).is_none());
}

#[test]
fn check_slice_rejects_ranges_outside_the_buffer() {
    assert_eq!(check_slice(10, 20, 30), Ok(ArchSlice { offset: 10, len: 20 }));
    assert_eq!(check_slice(10, 21, 30), Err(ScanError::MalformedIndex));
    assert_eq!(check_slice(u64::MAX, 2, 30), Err(ScanError::MalformedIndex));
}
