use crate::aggregate::{
    aggregate_slices, architecture_slices, index_entry_len, index_slices, slices_ids, slices_identifiers,
    slices_view,
};
use crate::container::{container_kind, kind_of, AddressWidth, ContainerKind};
use crate::identifier::{ids_view, BuildId};
use crate::image::{image_identifiers, image_ids};
use vstd::prelude::*;

verus! {

/// The identifiers found in a buffer, in the order in which they are stored:
/// those of a single-architecture image, those of each image of an
/// aggregate, and none for anything else.
pub open spec fn scan_ids(s: Seq<u8>) -> Seq<Seq<u8>> {
    match kind_of(s) {
        ContainerKind::SingleArchitecture { .. } => image_ids(s),
        ContainerKind::MultiArchitecture { width } => slices_ids(s, aggregate_slices(s, width)),
        ContainerKind::Unrecognized => seq![],
    }
}

/// The set of identifiers found in a buffer.
pub open spec fn identifiers(s: Seq<u8>) -> Set<Seq<u8>> {
    scan_ids(s).to_set()
}

proof fn lemma_index_slices_fit(s: Seq<u8>, p: int, n: int, width: AddressWidth)
    ensures
        forall|i: int|
            0 <= i < index_slices(s, p, n, width).len() ==> index_slices(s, p, n, width)[i].0
                + index_slices(s, p, n, width)[i].1 <= s.len(),
    decreases n,
{
    if n > 0 && p >= 0 && p + index_entry_len(width) <= s.len() {
        let q = p + index_entry_len(width);
        lemma_index_slices_fit(s, q, n - 1, width);
        let all = index_slices(s, p, n, width);
        let rest = index_slices(s, q, n - 1, width);
        let head = all.subrange(0, all.len() - rest.len());
        assert(all =~= head + rest);
        assert forall|i: int| 0 <= i < all.len() implies all[i].0 + all[i].1 <= s.len() by {
            if i >= head.len() {
                assert(all[i] == rest[i - head.len()]);
            }
        }
    }
}

/// Every identifier that a buffer holds, in the order in which it is stored.
pub fn scan(bytes: &[u8]) -> (r: Vec<BuildId>)
    ensures
        ids_view(r@) == scan_ids(bytes@),
{
    let mut ids: Vec<BuildId> = Vec::new();
    assert(ids_view(ids@) =~= seq![]);
    match container_kind(bytes) {
        ContainerKind::SingleArchitecture { .. } => {
            image_identifiers(bytes, &mut ids);
            assert(seq![] + image_ids(bytes@) =~= image_ids(bytes@));
        },
        ContainerKind::MultiArchitecture { width } => {
            let slices = architecture_slices(bytes, width);
            proof {
                if bytes@.len() >= 8 {
                    lemma_index_slices_fit(bytes@, 8, crate::bytes::be32(bytes@, 4), width);
                }
                let sv = slices_view(slices@);
                assert(sv.len() == slices@.len());
                assert forall|i: int| 0 <= i < slices@.len() implies slices@[i].offset
                    + slices@[i].len <= bytes@.len() by {
                    assert(sv[i] == slices@[i]@);
                }
            }
            slices_identifiers(bytes, &slices, &mut ids);
            assert(seq![] + slices_ids(bytes@, slices_view(slices@)) =~= slices_ids(
                bytes@,
                slices_view(slices@),
            ));
        },
        ContainerKind::Unrecognized => {},
    }
    ids
}

/// Whether a buffer holds the given identifier.
pub fn matches(bytes: &[u8], target: &BuildId) -> (r: bool)
    ensures
        r == identifiers(bytes@).contains(target@),
{
    let ids = scan(bytes);
    let mut i: usize = 0;
    while i < ids.len()
        invariant
            i <= ids@.len(),
            ids_view(ids@) == scan_ids(bytes@),
            forall|k: int| 0 <= k < i ==> ids@[k]@ != target@,
        decreases ids@.len() - i,
    {
        if ids[i].same_as(target) {
            assert(scan_ids(bytes@)[i as int] == target@);
            return true;
        }
        i = i + 1;
    }
    assert forall|k: int| 0 <= k < scan_ids(bytes@).len() implies scan_ids(bytes@)[k]
        != target@ by {
        assert(ids_view(ids@)[k] == ids@[k]@);
    }
    false
}

/// Whether a directory entry is worth scanning: a regular file that is not
/// empty.
pub fn is_candidate(is_regular_file: bool, len: u64) -> (r: bool)
    ensures
        r == (is_regular_file && len > 0),
{
    is_regular_file && len > 0
}

} // verus!
