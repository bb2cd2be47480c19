use crate::bytes::{be32, ByteOrder, Cursor};
use vstd::prelude::*;

verus! {

/// The first four bytes, read big-endian, of a big-endian 32-bit image.
pub const MH_MAGIC: u32 = 0xfeedface;

/// The first four bytes, read big-endian, of a little-endian 32-bit image.
pub const MH_CIGAM: u32 = 0xcefaedfe;

/// The first four bytes, read big-endian, of a big-endian 64-bit image.
pub const MH_MAGIC_64: u32 = 0xfeedfacf;

/// The first four bytes, read big-endian, of a little-endian 64-bit image.
pub const MH_CIGAM_64: u32 = 0xcffaedfe;

/// The first four bytes of an aggregate with 32-bit index entries.
pub const FAT_MAGIC: u32 = 0xcafebabe;

/// The same, stored byte-swapped.
pub const FAT_CIGAM: u32 = 0xbebafeca;

/// The first four bytes of an aggregate with 64-bit index entries.
pub const FAT_MAGIC_64: u32 = 0xcafebabf;

/// The same, stored byte-swapped.
pub const FAT_CIGAM_64: u32 = 0xbfbafeca;

/// Width of the addresses and offsets of a container.
#[derive(Clone, Copy, Debug, PartialEq, Eq, Structural)]
pub enum AddressWidth {
    Bits32,
    Bits64,
}

/// What a container is, as its magic number says.
///
/// The index of an aggregate is always big-endian.
#[derive(Clone, Copy, Debug, PartialEq, Eq, Structural)]
pub enum ContainerKind {
    SingleArchitecture { order: ByteOrder, width: AddressWidth },
    MultiArchitecture { width: AddressWidth },
    Unrecognized,
}

/// The table of magic numbers.
pub open spec fn kind_of_magic(m: int) -> ContainerKind {
    if m == MH_MAGIC {
        ContainerKind::SingleArchitecture { order: ByteOrder::Big, width: AddressWidth::Bits32 }
    } else if m == MH_CIGAM {
        ContainerKind::SingleArchitecture { order: ByteOrder::Little, width: AddressWidth::Bits32 }
    } else if m == MH_MAGIC_64 {
        ContainerKind::SingleArchitecture { order: ByteOrder::Big, width: AddressWidth::Bits64 }
    } else if m == MH_CIGAM_64 {
        ContainerKind::SingleArchitecture { order: ByteOrder::Little, width: AddressWidth::Bits64 }
    } else if m == FAT_MAGIC || m == FAT_CIGAM {
        ContainerKind::MultiArchitecture { width: AddressWidth::Bits32 }
    } else if m == FAT_MAGIC_64 || m == FAT_CIGAM_64 {
        ContainerKind::MultiArchitecture { width: AddressWidth::Bits64 }
    } else {
        ContainerKind::Unrecognized
    }
}

/// What a buffer is: unrecognised where it is shorter than a magic number.
pub open spec fn kind_of(s: Seq<u8>) -> ContainerKind {
    if s.len() < 4 {
        ContainerKind::Unrecognized
    } else {
        kind_of_magic(be32(s, 0))
    }
}

/// Length of the fixed header of a single-architecture image.
pub open spec fn image_header_len(width: AddressWidth) -> int {
    match width {
        AddressWidth::Bits32 => 28,
        AddressWidth::Bits64 => 32,
    }
}

/// Offset of the record count in the header of an image.
pub const RECORD_COUNT_OFFSET: usize = 16;

/// Looks a magic number up in the table.
pub fn classify(magic: u32) -> (k: ContainerKind)
    ensures
        k == kind_of_magic(magic as int),
{
    if magic == MH_MAGIC {
        ContainerKind::SingleArchitecture { order: ByteOrder::Big, width: AddressWidth::Bits32 }
    } else if magic == MH_CIGAM {
        ContainerKind::SingleArchitecture { order: ByteOrder::Little, width: AddressWidth::Bits32 }
    } else if magic == MH_MAGIC_64 {
        ContainerKind::SingleArchitecture { order: ByteOrder::Big, width: AddressWidth::Bits64 }
    } else if magic == MH_CIGAM_64 {
        ContainerKind::SingleArchitecture { order: ByteOrder::Little, width: AddressWidth::Bits64 }
    } else if magic == FAT_MAGIC || magic == FAT_CIGAM {
        ContainerKind::MultiArchitecture { width: AddressWidth::Bits32 }
    } else if magic == FAT_MAGIC_64 || magic == FAT_CIGAM_64 {
        ContainerKind::MultiArchitecture { width: AddressWidth::Bits64 }
    } else {
        ContainerKind::Unrecognized
    }
}

/// Reads the magic number at the start of a buffer and says what the buffer is.
pub fn container_kind(bytes: &[u8]) -> (k: ContainerKind)
    ensures
        k == kind_of(bytes@),
{
    let mut c = Cursor::new(bytes);
    match c.read_u32(ByteOrder::Big) {
        Ok(magic) => classify(magic),
        Err(_) => ContainerKind::Unrecognized,
    }
}

/// Length of the fixed header of a single-architecture image.
pub fn header_len(width: AddressWidth) -> (r: usize)
    ensures
        r == image_header_len(width),
{
    match width {
        AddressWidth::Bits32 => 28,
        AddressWidth::Bits64 => 32,
    }
}

} // verus!
