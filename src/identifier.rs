use crate::error::ScanError;
use vstd::prelude::*;

verus! {

/// A 128-bit build identifier, compared byte by byte.
#[derive(Clone, Copy, Debug)]
pub struct BuildId {
    pub bytes: [u8; 16],
}

impl View for BuildId {
    type V = Seq<u8>;

    open spec fn view(&self) -> Seq<u8> {
        self.bytes@
    }
}

/// The byte strings of a sequence of identifiers, in order.
pub open spec fn ids_view(v: Seq<BuildId>) -> Seq<Seq<u8>> {
    v.map_values(|id: BuildId| id@)
}

pub proof fn lemma_ids_view_push(v: Seq<BuildId>, id: BuildId)
    ensures
        ids_view(v.push(id)) == ids_view(v).push(id@),
{
    assert(ids_view(v.push(id)) =~= ids_view(v).push(id@));
}

impl BuildId {
    /// The identifier held in 16 bytes, in the order in which they are stored.
    pub fn from_slice(b: &[u8]) -> (id: BuildId)
        requires
            b@.len() == 16,
        ensures
            id@ == b@,
    {
        let bytes: [u8; 16] = [
            b[0],
            b[1],
            b[2],
            b[3],
            b[4],
            b[5],
            b[6],
            b[7],
            b[8],
            b[9],
            b[10],
            b[11],
            b[12],
            b[13],
            b[14],
            b[15],
        ];
        let id = BuildId { bytes };
        assert(id@ =~= b@);
        id
    }

    /// Whether the two identifiers hold the same bytes.
    pub fn same_as(&self, other: &BuildId) -> (r: bool)
        ensures
            r == (self@ == other@),
    {
        let mut i: usize = 0;
        while i < 16
            invariant
                i <= 16,
                self@.len() == 16,
                other@.len() == 16,
                forall|k: int| 0 <= k < i ==> self@[k] == other@[k],
            decreases 16 - i,
        {
            if self.bytes[i] != other.bytes[i] {
                assert(self@[i as int] != other@[i as int]);
                return false;
            }
            i = i + 1;
        }
        assert(self@ =~= other@);
        true
    }
}

impl PartialEq for BuildId {
    fn eq(&self, other: &BuildId) -> (r: bool) {
        self.same_as(other)
    }
}

impl vstd::std_specs::cmp::PartialEqSpecImpl for BuildId {
    open spec fn obeys_eq_spec() -> bool {
        true
    }

    open spec fn eq_spec(&self, other: &BuildId) -> bool {
        self@ == other@
    }
}

impl Eq for BuildId {

}

/// What `uuid::Uuid::parse_str` makes of a text: its 16 bytes, or nothing
/// where the text is no identifier.
pub uninterp spec fn uuid_text_bytes(text: Seq<char>) -> Option<Seq<u8>>;

/// Relies on `uuid::Uuid::parse_str`, which parses the simple, hyphenated,
/// braced and URN forms of an identifier and rejects any other text; the
/// bytes come out of `Uuid::as_bytes`.
#[verifier::external_body]
fn uuid_parse_str(text: &str) -> (r: Option<[u8; 16]>)
    ensures
        uuid_text_bytes(text@) == (match r {
            Some(b) => Some(b@),
            None => None::<Seq<u8>>,
        }),
{
    uuid::Uuid::parse_str(text).ok().map(|u| *u.as_bytes())
}

/// Reads an identifier from its textual form.
pub fn parse_identifier(text: &str) -> (r: Result<BuildId, ScanError>)
    ensures
        match uuid_text_bytes(text@) {
            Some(b) => r is Ok && r->Ok_0@ == b,
            None => r == Err::<BuildId, ScanError>(ScanError::InvalidTargetIdentifier),
        },
{
    match uuid_parse_str(text) {
        Some(bytes) => Ok(BuildId { bytes }),
        None => Err(ScanError::InvalidTargetIdentifier),
    }
}

} // verus!
