use crate::bytes::{be32, u64_in, ByteOrder, Cursor};
use crate::container::AddressWidth;
use crate::error::ScanError;
use crate::identifier::{ids_view, BuildId};
use crate::image::{image_identifiers, image_ids};
use vstd::prelude::*;

verus! {

/// One embedded image of an aggregate: where it starts and how long it is.
#[derive(Clone, Copy, Debug, PartialEq, Eq, Structural)]
pub struct ArchSlice {
    pub offset: usize,
    pub len: usize,
}

impl View for ArchSlice {
    type V = (int, int);

    open spec fn view(&self) -> (int, int) {
        (self.offset as int, self.len as int)
    }
}

pub open spec fn slices_view(v: Seq<ArchSlice>) -> Seq<(int, int)> {
    v.map_values(|a: ArchSlice| a@)
}

/// Length of one entry of an aggregate's index.
pub open spec fn index_entry_len(width: AddressWidth) -> int {
    match width {
        AddressWidth::Bits32 => 20,
        AddressWidth::Bits64 => 32,
    }
}

/// Offset of the image that the index entry at `p` names.
pub open spec fn entry_offset(s: Seq<u8>, p: int, width: AddressWidth) -> int {
    match width {
        AddressWidth::Bits32 => be32(s, p + 8),
        AddressWidth::Bits64 => u64_in(s, p + 8, ByteOrder::Big),
    }
}

/// Length of the image that the index entry at `p` names.
pub open spec fn entry_len(s: Seq<u8>, p: int, width: AddressWidth) -> int {
    match width {
        AddressWidth::Bits32 => be32(s, p + 12),
        AddressWidth::Bits64 => u64_in(s, p + 16, ByteOrder::Big),
    }
}

/// The slices named by the index entries from offset `p` on, with `n`
/// entries still declared. An entry whose range leaves the buffer is dropped;
/// the walk ends at the first entry that does not fit.
pub open spec fn index_slices(s: Seq<u8>, p: int, n: int, width: AddressWidth) -> Seq<(int, int)>
    decreases n,
{
    if n <= 0 || p < 0 || p + index_entry_len(width) > s.len() {
        seq![]
    } else {
        let off = entry_offset(s, p, width);
        let len = entry_len(s, p, width);
        (if off + len <= s.len() {
            seq![(off, len)]
        } else {
            seq![]
        }) + index_slices(s, p + index_entry_len(width), n - 1, width)
    }
}

/// The slices of an aggregate, in the order of its index; the count of
/// entries follows the magic number, big-endian.
pub open spec fn aggregate_slices(s: Seq<u8>, width: AddressWidth) -> Seq<(int, int)> {
    if s.len() < 8 {
        seq![]
    } else {
        index_slices(s, 8, be32(s, 4), width)
    }
}

/// The identifiers of the images at the given slices, slice after slice.
pub open spec fn slices_ids(s: Seq<u8>, sl: Seq<(int, int)>) -> Seq<Seq<u8>>
    decreases sl.len(),
{
    if sl.len() == 0 {
        seq![]
    } else {
        slices_ids(s, sl.drop_last()) + image_ids(
            s.subrange(sl.last().0, sl.last().0 + sl.last().1),
        )
    }
}

/// Reads the index entry at the cursor: the offset and length of its image.
pub fn read_index_entry(c: &mut Cursor, width: AddressWidth) -> (r: Result<(u64, u64), ScanError>)
    requires
        old(c).wf(),
    ensures
        final(c).wf(),
        final(c).data() == old(c).data(),
        old(c).pos() + index_entry_len(width) <= old(c).data().len() <==> r is Ok,
        r is Err ==> r->Err_0 == ScanError::Truncated,
        r is Ok ==> r->Ok_0.0 == entry_offset(old(c).data(), old(c).pos(), width) && r->Ok_0.1
            == entry_len(old(c).data(), old(c).pos(), width) && final(c).pos() == old(c).pos()
            + index_entry_len(width),
{
    match width {
        AddressWidth::Bits32 => {
            if c.remaining() < 20 {
                return Err(ScanError::Truncated);
            }
            c.skip(8)?;
            let off = c.read_u32(ByteOrder::Big)?;
            let len = c.read_u32(ByteOrder::Big)?;
            c.skip(4)?;
            Ok((off as u64, len as u64))
        },
        AddressWidth::Bits64 => {
            if c.remaining() < 32 {
                return Err(ScanError::Truncated);
            }
            c.skip(8)?;
            let off = c.read_u64(ByteOrder::Big)?;
            let len = c.read_u64(ByteOrder::Big)?;
            c.skip(8)?;
            Ok((off, len))
        },
    }
}

/// The slice at `offset` of length `len`, where it lies inside a buffer of
/// `total` bytes.
pub fn check_slice(offset: u64, len: u64, total: usize) -> (r: Result<ArchSlice, ScanError>)
    ensures
        offset + len <= total ==> r is Ok && r->Ok_0@ == (offset as int, len as int),
        offset + len > total ==> r == Err::<ArchSlice, ScanError>(ScanError::MalformedIndex),
{
    let total = total as u64;
    if offset > total || len > total - offset {
        return Err(ScanError::MalformedIndex);
    }
    Ok(ArchSlice { offset: offset as usize, len: len as usize })
}

/// Reads the index of an aggregate.
pub fn architecture_slices(bytes: &[u8], width: AddressWidth) -> (r: Vec<ArchSlice>)
    ensures
        slices_view(r@) == aggregate_slices(bytes@, width),
{
    let mut out: Vec<ArchSlice> = Vec::new();
    let mut c = Cursor::new(bytes);
    if c.seek(4).is_err() {
        return out;
    }
    let mut n: u32 = match c.read_u32(ByteOrder::Big) {
        Ok(v) => v,
        Err(_) => {
            assert(slices_view(out@) =~= seq![]);
            return out;
        },
    };
    assert(slices_view(out@) =~= seq![]);
    assert(seq![] + aggregate_slices(bytes@, width) =~= aggregate_slices(bytes@, width));
    while n > 0
        invariant
            c.wf(),
            c.data() == bytes@,
            slices_view(out@) + index_slices(bytes@, c.pos(), n as int, width) == aggregate_slices(
                bytes@,
                width,
            ),
        decreases n,
    {
        let ghost p = c.pos();
        let ghost before = slices_view(out@);
        match read_index_entry(&mut c, width) {
            Ok((off, len)) => {
                let ghost found = if off + len <= bytes@.len() {
                    seq![(off as int, len as int)]
                } else {
                    Seq::<(int, int)>::empty()
                };
                let ghost rest = index_slices(bytes@, c.pos(), n - 1, width);
                assert(index_slices(bytes@, p, n as int, width) == found + rest);
                match check_slice(off, len, bytes.len()) {
                    Ok(slice) => {
                        out.push(slice);
                    },
                    Err(_) => {},
                }
                assert(slices_view(out@) =~= before + found);
                assert((before + found) + rest =~= before + (found + rest));
                n = n - 1;
            },
            Err(_) => {
                assert(slices_view(out@) + index_slices(bytes@, p, n as int, width)
                    =~= slices_view(out@));
                return out;
            },
        }
    }
    assert(slices_view(out@) + index_slices(bytes@, c.pos(), 0, width) =~= slices_view(out@));
    out
}

/// Appends the identifiers of the images at the given slices of `bytes`.
pub fn slices_identifiers(bytes: &[u8], slices: &Vec<ArchSlice>, ids: &mut Vec<BuildId>)
    requires
        forall|i: int|
            0 <= i < slices@.len() ==> slices@[i].offset + slices@[i].len <= bytes@.len(),
    ensures
        ids_view(final(ids)@) == ids_view(old(ids)@) + slices_ids(bytes@, slices_view(slices@)),
{
    let mut i: usize = 0;
    assert(slices_view(slices@).take(0) =~= seq![]);
    assert(ids_view(ids@) + seq![] =~= ids_view(ids@));
    while i < slices.len()
        invariant
            i <= slices@.len(),
            forall|k: int|
                0 <= k < slices@.len() ==> slices@[k].offset + slices@[k].len <= bytes@.len(),
            ids_view(ids@) == ids_view(old(ids)@) + slices_ids(
                bytes@,
                slices_view(slices@).take(i as int),
            ),
        decreases slices@.len() - i,
    {
        let slice = slices[i];
        let total = bytes.len();
        assert(slice.offset + slice.len <= total);
        let part = &bytes[slice.offset..slice.offset + slice.len];
        let ghost before = ids_view(ids@);
        image_identifiers(part, ids);
        let ghost sl = slices_view(slices@);
        assert(sl.take(i + 1).drop_last() =~= sl.take(i as int));
        assert(sl.take(i + 1).last() == slice@);
        assert((ids_view(old(ids)@) + slices_ids(bytes@, sl.take(i as int))) + image_ids(part@)
            =~= ids_view(old(ids)@) + (slices_ids(bytes@, sl.take(i as int)) + image_ids(part@)));
        i = i + 1;
    }
    assert(slices_view(slices@).take(i as int) =~= slices_view(slices@));
}

} // verus!
