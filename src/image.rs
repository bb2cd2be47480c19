use crate::bytes::{u32_in, ByteOrder, Cursor};
use crate::container::{
    container_kind, header_len, image_header_len, kind_of, ContainerKind, RECORD_COUNT_OFFSET,
};
use crate::error::ScanError;
use crate::identifier::{ids_view, lemma_ids_view_push, BuildId};
use vstd::prelude::*;

verus! {

/// Type tag of the record that carries the build identifier.
pub const LC_UUID: u32 = 0x1b;

/// Length of the tag and total-length fields that open every record.
pub const RECORD_HEADER_LEN: u32 = 8;

/// Length of the payload of an identifier record.
pub const IDENTIFIER_LEN: usize = 16;

/// One load command of an image: its type tag and the bytes after its
/// eight-byte header.
pub struct Record<'a> {
    pub tag: u32,
    pub payload: &'a [u8],
}

/// The identifier that a record of the given tag and payload carries, if any.
pub open spec fn identifier_of(tag: int, payload: Seq<u8>) -> Option<Seq<u8>> {
    if tag == LC_UUID && payload.len() == IDENTIFIER_LEN {
        Some(payload)
    } else {
        None
    }
}

/// An optional identifier as a sequence of zero or one items.
pub open spec fn opt_seq(o: Option<Seq<u8>>) -> Seq<Seq<u8>> {
    match o {
        Some(v) => seq![v],
        None => seq![],
    }
}

/// Whether a complete record starts at offset `p`: its header fits, its
/// total length covers the header, and the whole record fits.
pub open spec fn record_fits(s: Seq<u8>, p: int, order: ByteOrder) -> bool {
    &&& 0 <= p
    &&& p + 8 <= s.len()
    &&& 8 <= u32_in(s, p + 4, order)
    &&& p + u32_in(s, p + 4, order) <= s.len()
}

/// The identifiers of the records from offset `p` on, with `n` records still
/// declared; the walk ends early at the first record that does not fit.
pub open spec fn record_ids(s: Seq<u8>, p: int, n: int, order: ByteOrder) -> Seq<Seq<u8>>
    decreases n,
{
    if n <= 0 || !record_fits(s, p, order) {
        seq![]
    } else {
        let size = u32_in(s, p + 4, order);
        opt_seq(identifier_of(u32_in(s, p, order), s.subrange(p + 8, p + size))) + record_ids(
            s,
            p + size,
            n - 1,
            order,
        )
    }
}

/// The identifiers of a single-architecture image, in the order of its
/// records; none for anything else.
pub open spec fn image_ids(s: Seq<u8>) -> Seq<Seq<u8>> {
    match kind_of(s) {
        ContainerKind::SingleArchitecture { order, width } => {
            if s.len() < image_header_len(width) {
                seq![]
            } else {
                record_ids(s, image_header_len(width), u32_in(s, 16, order), order)
            }
        },
        _ => seq![],
    }
}

/// Reads the record at the cursor and moves past it.
pub fn next_record<'a>(c: &mut Cursor<'a>, order: ByteOrder) -> (r: Result<Record<'a>, ScanError>)
    requires
        old(c).wf(),
    ensures
        final(c).wf(),
        final(c).data() == old(c).data(),
        record_fits(old(c).data(), old(c).pos(), order) <==> r is Ok,
        r is Err ==> r->Err_0 == ScanError::Truncated,
        r is Ok ==> {
            let size = u32_in(old(c).data(), old(c).pos() + 4, order);
            &&& r->Ok_0.tag == u32_in(old(c).data(), old(c).pos(), order)
            &&& r->Ok_0.payload@ == old(c).data().subrange(old(c).pos() + 8, old(c).pos() + size)
            &&& final(c).pos() == old(c).pos() + size
        },
{
    let tag = c.read_u32(order)?;
    let size = c.read_u32(order)?;
    if size < RECORD_HEADER_LEN {
        return Err(ScanError::Truncated);
    }
    let payload = c.read_bytes((size - RECORD_HEADER_LEN) as usize)?;
    Ok(Record { tag, payload })
}

/// The identifier that a record carries, if it is an identifier record with a
/// payload of the right length.
pub fn extract_identifier(rec: &Record) -> (r: Option<BuildId>)
    ensures
        match identifier_of(rec.tag as int, rec.payload@) {
            Some(b) => r is Some && r->Some_0@ == b,
            None => r is None,
        },
{
    if rec.tag == LC_UUID && rec.payload.len() == IDENTIFIER_LEN {
        Some(BuildId::from_slice(rec.payload))
    } else {
        None
    }
}

/// Appends the identifiers of the records from offset `start` on, with
/// `count` records declared.
pub fn record_identifiers(
    bytes: &[u8],
    start: usize,
    count: u32,
    order: ByteOrder,
    ids: &mut Vec<BuildId>,
)
    requires
        start <= bytes@.len(),
    ensures
        ids_view(final(ids)@) == ids_view(old(ids)@) + record_ids(
            bytes@,
            start as int,
            count as int,
            order,
        ),
{
    let mut c = Cursor::new(bytes);
    let _ = c.seek(start);
    let mut n: u32 = count;
    assert(ids_view(ids@) + record_ids(bytes@, start as int, count as int, order) =~= ids_view(
        old(ids)@,
    ) + record_ids(bytes@, start as int, count as int, order));
    while n > 0
        invariant
            c.wf(),
            c.data() == bytes@,
            ids_view(ids@) + record_ids(bytes@, c.pos(), n as int, order) == ids_view(old(ids)@)
                + record_ids(bytes@, start as int, count as int, order),
        decreases n,
    {
        let ghost p = c.pos();
        let ghost before = ids_view(ids@);
        match next_record(&mut c, order) {
            Ok(rec) => {
                let ghost size = u32_in(bytes@, p + 4, order);
                let ghost found = opt_seq(identifier_of(rec.tag as int, rec.payload@));
                let ghost rest = record_ids(bytes@, p + size, n - 1, order);
                assert(record_ids(bytes@, p, n as int, order) == found + rest);
                match extract_identifier(&rec) {
                    Some(id) => {
                        proof {
                            lemma_ids_view_push(ids@, id);
                        }
                        ids.push(id);
                        assert(ids_view(ids@) =~= before + found);
                    },
                    None => {
                        assert(ids_view(ids@) =~= before + found);
                    },
                }
                assert((before + found) + rest =~= before + (found + rest));
                n = n - 1;
            },
            Err(_) => {
                assert(record_ids(bytes@, p, n as int, order) =~= seq![]);
                assert(ids_view(ids@) + seq![] =~= ids_view(ids@));
                return ;
            },
        }
    }
    assert(ids_view(ids@) + record_ids(bytes@, c.pos(), 0, order) =~= ids_view(ids@));
}

/// Appends the identifiers of a single-architecture image; nothing for a
/// buffer that is not one.
pub fn image_identifiers(bytes: &[u8], ids: &mut Vec<BuildId>)
    ensures
        ids_view(final(ids)@) == ids_view(old(ids)@) + image_ids(bytes@),
{
    match container_kind(bytes) {
        ContainerKind::SingleArchitecture { order, width } => {
            let hlen = header_len(width);
            if bytes.len() < hlen {
                assert(ids_view(ids@) + seq![] =~= ids_view(ids@));
                return ;
            }
            let mut c = Cursor::new(bytes);
            let _ = c.seek(RECORD_COUNT_OFFSET);
            let count = match c.read_u32(order) {
                Ok(v) => v,
                Err(_) => 0,
            };
            record_identifiers(bytes, hlen, count, order, ids);
        },
        _ => {
            assert(ids_view(ids@) + seq![] =~= ids_view(ids@));
        },
    }
}

} // verus!
