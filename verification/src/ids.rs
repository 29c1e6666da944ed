//! Fixed sixteen-byte identities.
use vstd::prelude::*;

verus! {

/// Whether two identities hold the same bytes.
pub fn same_identity(left: &[u8; 16], right: &[u8; 16]) -> (same: bool)
    ensures
        same == (left@ == right@),
{
    let mut at: usize = 0;
    while at < 16
        invariant
            at <= 16,
            forall|i: int| 0 <= i < at ==> left@[i] == right@[i],
        decreases 16 - at,
    {
        if left[at] != right[at] {
            assert(left@[at as int] != right@[at as int]);
            return false;
        }
        at += 1;
    }
    assert(left@ =~= right@);
    true
}

/// Copies the sixteen bytes of a slice.
pub fn identity_from_slice(bytes: &[u8]) -> (identity: [u8; 16])
    requires
        bytes@.len() == 16,
    ensures
        identity@ == bytes@,
{
    let mut identity: [u8; 16] = [0u8; 16];
    let mut at: usize = 0;
    while at < 16
        invariant
            at <= 16,
            bytes@.len() == 16,
            forall|i: int| 0 <= i < at ==> identity@[i] == bytes@[i],
        decreases 16 - at,
    {
        identity[at] = bytes[at];
        at += 1;
    }
    assert(identity@ =~= bytes@);
    identity
}

/// Journal (Canon) identity.
#[derive(Debug, Clone, Copy, PartialEq, Eq, PartialOrd, Ord, Hash)]
pub struct JournalId {
    pub bytes: [u8; 16],
}

impl View for JournalId {
    type V = Seq<u8>;

    open spec fn view(&self) -> Seq<u8> {
        self.bytes@
    }
}

impl JournalId {
    /// Identity with exactly these bytes.
    pub fn from_bytes(bytes: [u8; 16]) -> (id: Self)
        ensures
            id@ == bytes@,
    {
        JournalId { bytes }
    }

    /// The fixed bytes.
    pub fn as_bytes(&self) -> (bytes: [u8; 16])
        ensures
            bytes@ == self@,
    {
        self.bytes
    }
}

/// Producer identity.
#[derive(Debug, Clone, Copy, PartialEq, Eq, PartialOrd, Ord, Hash)]
pub struct ProducerId {
    pub bytes: [u8; 16],
}

impl View for ProducerId {
    type V = Seq<u8>;

    open spec fn view(&self) -> Seq<u8> {
        self.bytes@
    }
}

impl ProducerId {
    /// Identity with exactly these bytes.
    pub fn from_bytes(bytes: [u8; 16]) -> (id: Self)
        ensures
            id@ == bytes@,
    {
        ProducerId { bytes }
    }

    /// The fixed bytes.
    pub fn as_bytes(&self) -> (bytes: [u8; 16])
        ensures
            bytes@ == self@,
    {
        self.bytes
    }
}

/// Verse identity.
#[derive(Debug, Clone, Copy, PartialEq, Eq, PartialOrd, Ord, Hash)]
pub struct VerseId {
    pub bytes: [u8; 16],
}

impl View for VerseId {
    type V = Seq<u8>;

    open spec fn view(&self) -> Seq<u8> {
        self.bytes@
    }
}

impl VerseId {
    /// Identity with exactly these bytes.
    pub fn from_bytes(bytes: [u8; 16]) -> (id: Self)
        ensures
            id@ == bytes@,
    {
        VerseId { bytes }
    }

    /// The fixed bytes.
    pub fn as_bytes(&self) -> (bytes: [u8; 16])
        ensures
            bytes@ == self@,
    {
        self.bytes
    }
}

} // verus!
