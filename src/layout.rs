use crate::bytes::{be32, u32_in, ByteOrder};
use crate::container::{
    image_header_len, kind_of, kind_of_magic, AddressWidth, ContainerKind, FAT_MAGIC, MH_CIGAM,
    MH_CIGAM_64, MH_MAGIC, MH_MAGIC_64,
};
use crate::aggregate::{aggregate_slices, index_slices, slices_ids};
use crate::image::{identifier_of, image_ids, opt_seq, record_fits, record_ids};
use crate::scan::{identifiers, scan_ids};
use vstd::arithmetic::div_mod::lemma_fundamental_div_mod;
use vstd::prelude::*;
use vstd::assert_sets_equal;

verus! {

/// The four bytes that store `x` in the given order.
pub open spec fn enc32(x: int, order: ByteOrder) -> Seq<u8> {
    let b0 = (x % 256) as u8;
    let b1 = (x / 256 % 256) as u8;
    let b2 = (x / 256 / 256 % 256) as u8;
    let b3 = (x / 256 / 256 / 256 % 256) as u8;
    match order {
        ByteOrder::Big => seq![b3, b2, b1, b0],
        ByteOrder::Little => seq![b0, b1, b2, b3],
    }
}

proof fn lemma_enc32(x: int, order: ByteOrder)
    requires
        0 <= x <= u32::MAX,
    ensures
        enc32(x, order).len() == 4,
        u32_in(enc32(x, order), 0, order) == x,
{
    let q1 = x / 256;
    let q2 = q1 / 256;
    let q3 = q2 / 256;
    lemma_fundamental_div_mod(x, 256);
    lemma_fundamental_div_mod(q1, 256);
    lemma_fundamental_div_mod(q2, 256);
    assert(0 <= q3 < 256);
}

/// A 32-bit field reads back as the value that was stored in it.
proof fn lemma_read_at(s: Seq<u8>, p: int, x: int, order: ByteOrder)
    requires
        0 <= p,
        p + 4 <= s.len(),
        0 <= x <= u32::MAX,
        s.subrange(p, p + 4) == enc32(x, order),
    ensures
        u32_in(s, p, order) == x,
{
    lemma_enc32(x, order);
    let e = enc32(x, order);
    assert(s[p] == e[0] && s[p + 1] == e[1] && s[p + 2] == e[2] && s[p + 3] == e[3]);
}

/// A 32-bit field read inside the second part of a concatenation.
proof fn lemma_read_shift(a: Seq<u8>, b: Seq<u8>, q: int, order: ByteOrder)
    requires
        0 <= q,
        q + 4 <= b.len(),
    ensures
        u32_in(a + b, a.len() + q, order) == u32_in(b, q, order),
{
    let s = a + b;
    let p = a.len() + q;
    assert(s[p] == b[q] && s[p + 1] == b[q + 1] && s[p + 2] == b[q + 2] && s[p + 3] == b[q + 3]);
}

/// The bytes of one load command with the given tag and payload.
pub open spec fn encode_record(rec: (u32, Seq<u8>), order: ByteOrder) -> Seq<u8> {
    enc32(rec.0 as int, order) + enc32(8 + rec.1.len() as int, order) + rec.1
}

/// The bytes of load commands laid out one after the other.
pub open spec fn encode_records(recs: Seq<(u32, Seq<u8>)>, order: ByteOrder) -> Seq<u8>
    decreases recs.len(),
{
    if recs.len() == 0 {
        seq![]
    } else {
        encode_record(recs[0], order) + encode_records(recs.drop_first(), order)
    }
}

/// Whether the total length of every load command fits its 32-bit field.
pub open spec fn records_encodable(recs: Seq<(u32, Seq<u8>)>) -> bool {
    forall|i: int| 0 <= i < recs.len() ==> 8 + #[trigger] recs[i].1.len() <= u32::MAX
}

/// The identifiers that load commands carry, in order.
pub open spec fn records_ids(recs: Seq<(u32, Seq<u8>)>) -> Seq<Seq<u8>>
    decreases recs.len(),
{
    if recs.len() == 0 {
        seq![]
    } else {
        opt_seq(identifier_of(recs[0].0 as int, recs[0].1)) + records_ids(recs.drop_first())
    }
}

/// The magic number of a single-architecture image.
pub open spec fn image_magic(order: ByteOrder, width: AddressWidth) -> int {
    match (order, width) {
        (ByteOrder::Big, AddressWidth::Bits32) => MH_MAGIC as int,
        (ByteOrder::Little, AddressWidth::Bits32) => MH_CIGAM as int,
        (ByteOrder::Big, AddressWidth::Bits64) => MH_MAGIC_64 as int,
        (ByteOrder::Little, AddressWidth::Bits64) => MH_CIGAM_64 as int,
    }
}

/// Whether `cpu` can stand for the CPU type, subtype and file type fields
/// of an image header, and `rest` for the fields after the record count.
pub open spec fn header_fields_fit(width: AddressWidth, cpu: Seq<u8>, rest: Seq<u8>) -> bool {
    cpu.len() == 12 && rest.len() == image_header_len(width) - 20
}

/// A single-architecture image: its header, declaring `count` records, then
/// the load commands, then `tail`.
pub open spec fn encode_image(
    order: ByteOrder,
    width: AddressWidth,
    cpu: Seq<u8>,
    count: u32,
    rest: Seq<u8>,
    recs: Seq<(u32, Seq<u8>)>,
    tail: Seq<u8>,
) -> Seq<u8> {
    enc32(image_magic(order, width), ByteOrder::Big) + cpu + enc32(count as int, order) + rest
        + encode_records(recs, order) + tail
}

proof fn lemma_walk_encoded(
    pre: Seq<u8>,
    recs: Seq<(u32, Seq<u8>)>,
    tail: Seq<u8>,
    n: int,
    order: ByteOrder,
)
    requires
        records_encodable(recs),
        !record_fits(tail, 0, order),
        n >= recs.len(),
    ensures
        record_ids(pre + encode_records(recs, order) + tail, pre.len() as int, n, order)
            == records_ids(recs),
    decreases recs.len(),
{
    let s = pre + encode_records(recs, order) + tail;
    let p = pre.len() as int;
    if recs.len() == 0 {
        assert(s =~= pre + tail);
        if p + 8 <= s.len() {
            lemma_read_shift(pre, tail, 4, order);
        }
        assert(!record_fits(s, p, order));
    } else {
        let rec = recs[0];
        let rest = recs.drop_first();
        let e = encode_record(rec, order);
        let size: int = 8 + rec.1.len() as int;
        assert(8 + recs[0].1.len() <= u32::MAX);
        lemma_enc32(rec.0 as int, order);
        lemma_enc32(size, order);
        let pre2 = pre + e;
        assert(s =~= pre2 + encode_records(rest, order) + tail);
        assert(s.subrange(p, p + 4) =~= enc32(rec.0 as int, order));
        assert(s.subrange(p + 4, p + 8) =~= enc32(size, order));
        lemma_read_at(s, p, rec.0 as int, order);
        lemma_read_at(s, p + 4, size, order);
        assert(s.subrange(p + 8, p + size) =~= rec.1);
        assert(record_fits(s, p, order));
        assert forall|i: int| 0 <= i < rest.len() implies 8 + #[trigger] rest[i].1.len()
            <= u32::MAX by {
            assert(rest[i] == recs[i + 1]);
        }
        lemma_walk_encoded(pre2, rest, tail, n - 1, order);
        assert(pre2.len() == p + size);
    }
}

/// The identifiers of an encoded image are those that its load commands
/// carry, whenever the declared count covers them and `tail` holds no
/// complete load command.
pub proof fn lemma_encoded_image(
    order: ByteOrder,
    width: AddressWidth,
    cpu: Seq<u8>,
    count: u32,
    rest: Seq<u8>,
    recs: Seq<(u32, Seq<u8>)>,
    tail: Seq<u8>,
)
    requires
        header_fields_fit(width, cpu, rest),
        records_encodable(recs),
        !record_fits(tail, 0, order),
        count >= recs.len(),
    ensures
        kind_of(encode_image(order, width, cpu, count, rest, recs, tail))
            == (ContainerKind::SingleArchitecture { order, width }),
        image_ids(encode_image(order, width, cpu, count, rest, recs, tail)) == records_ids(recs),
        scan_ids(encode_image(order, width, cpu, count, rest, recs, tail)) == records_ids(recs),
{
    let s = encode_image(order, width, cpu, count, rest, recs, tail);
    let m = image_magic(order, width);
    let h = enc32(m, ByteOrder::Big) + cpu + enc32(count as int, order) + rest;
    lemma_enc32(m, ByteOrder::Big);
    lemma_enc32(count as int, order);
    assert(s =~= h + encode_records(recs, order) + tail);
    assert(s.subrange(0, 4) =~= enc32(m, ByteOrder::Big));
    lemma_read_at(s, 0, m, ByteOrder::Big);
    assert(be32(s, 0) == m);
    assert(s.subrange(16, 20) =~= enc32(count as int, order));
    lemma_read_at(s, 16, count as int, order);
    assert(h.len() == image_header_len(width));
    lemma_walk_encoded(h, recs, tail, count as int, order);
}

/// One entry of an aggregate's 32-bit index, with zero CPU type, subtype
/// and alignment.
pub open spec fn encode_index_entry(offset: int, len: int) -> Seq<u8> {
    Seq::new(8, |i: int| 0u8) + enc32(offset, ByteOrder::Big) + enc32(len, ByteOrder::Big)
        + Seq::new(4, |i: int| 0u8)
}

/// An aggregate of two images with a 32-bit index: its header and index,
/// 48 bytes in all, then the two images back to back.
pub open spec fn encode_aggregate(first: Seq<u8>, second: Seq<u8>) -> Seq<u8> {
    enc32(FAT_MAGIC as int, ByteOrder::Big) + enc32(2, ByteOrder::Big) + encode_index_entry(
        48,
        first.len() as int,
    ) + encode_index_entry(48 + first.len() as int, second.len() as int) + first + second
}

/// An aggregate of two images holds the identifiers of the first image, then
/// those of the second.
pub proof fn lemma_encoded_aggregate(first: Seq<u8>, second: Seq<u8>)
    requires
        48 + first.len() + second.len() <= u32::MAX,
    ensures
        kind_of(encode_aggregate(first, second)) == (ContainerKind::MultiArchitecture {
            width: AddressWidth::Bits32,
        }),
        scan_ids(encode_aggregate(first, second)) == image_ids(first) + image_ids(second),
{
    let s = encode_aggregate(first, second);
    let l1 = first.len() as int;
    let l2 = second.len() as int;
    let w = AddressWidth::Bits32;
    let h = enc32(FAT_MAGIC as int, ByteOrder::Big) + enc32(2, ByteOrder::Big)
        + encode_index_entry(48, l1) + encode_index_entry(48 + l1, l2);
    lemma_enc32(FAT_MAGIC as int, ByteOrder::Big);
    lemma_enc32(2, ByteOrder::Big);
    lemma_enc32(48, ByteOrder::Big);
    lemma_enc32(l1, ByteOrder::Big);
    lemma_enc32(48 + l1, ByteOrder::Big);
    lemma_enc32(l2, ByteOrder::Big);
    assert(h.len() == 48);
    assert(s =~= h + first + second);
    assert(s.subrange(0, 4) =~= enc32(FAT_MAGIC as int, ByteOrder::Big));
    assert(s.subrange(4, 8) =~= enc32(2, ByteOrder::Big));
    assert(s.subrange(16, 20) =~= enc32(48, ByteOrder::Big));
    assert(s.subrange(20, 24) =~= enc32(l1, ByteOrder::Big));
    assert(s.subrange(36, 40) =~= enc32(48 + l1, ByteOrder::Big));
    assert(s.subrange(40, 44) =~= enc32(l2, ByteOrder::Big));
    lemma_read_at(s, 0, FAT_MAGIC as int, ByteOrder::Big);
    lemma_read_at(s, 4, 2, ByteOrder::Big);
    lemma_read_at(s, 16, 48, ByteOrder::Big);
    lemma_read_at(s, 20, l1, ByteOrder::Big);
    lemma_read_at(s, 36, 48 + l1, ByteOrder::Big);
    lemma_read_at(s, 40, l2, ByteOrder::Big);
    assert(be32(s, 0) == FAT_MAGIC);
    assert(kind_of(s) == (ContainerKind::MultiArchitecture { width: w }));
    let a = (48int, l1);
    let b = (48 + l1, l2);
    assert(index_slices(s, 48, 0, w) =~= seq![]);
    assert(index_slices(s, 28, 1, w) =~= seq![b]);
    assert(index_slices(s, 8, 2, w) =~= seq![a, b]);
    let sl = aggregate_slices(s, w);
    assert(sl =~= seq![a, b]);
    assert(sl.drop_last() =~= seq![a]);
    assert(sl.drop_last().drop_last() =~= seq![]);
    assert(s.subrange(48, 48 + l1) =~= first);
    assert(s.subrange(48 + l1, 48 + l1 + l2) =~= second);
    assert(seq![a].drop_last() =~= Seq::<(int, int)>::empty());
    assert(slices_ids(s, Seq::<(int, int)>::empty()) == Seq::<Seq<u8>>::empty());
    assert(slices_ids(s, seq![a]) =~= image_ids(first));
}

/// A well-formed single-architecture image whose load commands hold exactly
/// one identifier record yields that identifier and no other.
pub proof fn law_single_image_one_identifier(
    order: ByteOrder,
    width: AddressWidth,
    cpu: Seq<u8>,
    rest: Seq<u8>,
    recs: Seq<(u32, Seq<u8>)>,
    v: Seq<u8>,
)
    requires
        header_fields_fit(width, cpu, rest),
        records_encodable(recs),
        recs.len() <= u32::MAX,
        records_ids(recs) == seq![v],
    ensures
        scan_ids(encode_image(order, width, cpu, recs.len() as u32, rest, recs, seq![]))
            == seq![v],
        identifiers(encode_image(order, width, cpu, recs.len() as u32, rest, recs, seq![]))
            == set![v],
{
    lemma_encoded_image(order, width, cpu, recs.len() as u32, rest, recs, seq![]);
    assert_sets_equal!(seq![v].to_set(), set![v], x => {
        if x == v {
            assert(seq![v][0] == v);
        }
    });
}

/// An aggregate of two single-architecture images with distinct identifiers
/// yields both, and a search finds those two and no other.
pub proof fn law_two_image_aggregate(first: Seq<u8>, second: Seq<u8>, v1: Seq<u8>, v2: Seq<u8>)
    requires
        48 + first.len() + second.len() <= u32::MAX,
        image_ids(first) == seq![v1],
        image_ids(second) == seq![v2],
        v1 != v2,
    ensures
        scan_ids(encode_aggregate(first, second)) == seq![v1, v2],
        identifiers(encode_aggregate(first, second)) == set![v1, v2],
        identifiers(encode_aggregate(first, second)).contains(v1),
        identifiers(encode_aggregate(first, second)).contains(v2),
        forall|v3: Seq<u8>|
            v3 != v1 && v3 != v2 ==> !identifiers(encode_aggregate(first, second)).contains(v3),
{
    lemma_encoded_aggregate(first, second);
    let found = scan_ids(encode_aggregate(first, second));
    assert(found =~= seq![v1, v2]);
    assert_sets_equal!(found.to_set(), set![v1, v2], x => {
        if x == v1 {
            assert(found[0] == v1);
        }
        if x == v2 {
            assert(found[1] == v2);
        }
    });
}

/// A buffer too short for a magic number, or whose magic number is not in
/// the table, yields no identifier.
pub proof fn law_unrecognized_is_empty(s: Seq<u8>)
    requires
        s.len() < 4 || kind_of_magic(be32(s, 0)) == ContainerKind::Unrecognized,
    ensures
        scan_ids(s) == Seq::<Seq<u8>>::empty(),
        identifiers(s) == Set::<Seq<u8>>::empty(),
{
    assert(identifiers(s) =~= Set::<Seq<u8>>::empty());
}

/// An image that declares more load commands than it holds yields the
/// identifiers of the commands that fit whole, and the scan goes on no
/// further: a trailing part of a command is ignored.
pub proof fn law_declared_count_exceeds_records(
    order: ByteOrder,
    width: AddressWidth,
    cpu: Seq<u8>,
    count: u32,
    rest: Seq<u8>,
    recs: Seq<(u32, Seq<u8>)>,
    tail: Seq<u8>,
)
    requires
        header_fields_fit(width, cpu, rest),
        records_encodable(recs),
        count > recs.len(),
        !record_fits(tail, 0, order),
    ensures
        scan_ids(encode_image(order, width, cpu, count, rest, recs, tail)) == records_ids(recs),
{
    lemma_encoded_image(order, width, cpu, count, rest, recs, tail);
}

/// What a scan finds depends on the bytes alone: scanning the same bytes
/// twice finds the same identifiers in the same order.
pub proof fn law_scan_depends_on_bytes_alone(s1: Seq<u8>, s2: Seq<u8>)
    requires
        s1 == s2,
    ensures
        scan_ids(s1) == scan_ids(s2),
        identifiers(s1) == identifiers(s2),
{
}

} // verus!
