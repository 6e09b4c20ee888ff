use vstd::prelude::*;
use crate::codec::{
    activity_preimage, auto_preimage, encode_activity_fields, encode_auto_fields,
    encode_staff_fields, staff_preimage,
};
use crate::types::{AccountId, ActivityID, CompetenceID, RecordId, Seed, StudentID, TermKey};

verus! {

/// The BLAKE2b digest of 256 bits of a byte string. Nothing is known of it
/// here but that equal strings have equal digests.
pub uninterp spec fn blake2_256(data: Seq<u8>) -> RecordId;

/// `sp_runtime::traits::Hash::hash` of `sp_runtime::traits::BlakeTwo256`.
/// Not proved: that the digest is a function of the bytes alone, which is all
/// that the contract claims by giving it a name.
#[verifier::external_body]
pub(crate) fn blake2_256_of(data: &Vec<u8>) -> (digest: RecordId)
    ensures
        digest == blake2_256(data@),
{
    <sp_runtime::traits::BlakeTwo256 as sp_runtime::traits::Hash>::hash(data.as_slice()).0
}

/// The identifier of a staff grant made with `seed`.
pub open spec fn staff_record_id(
    seed: Seq<u8>,
    by: AccountId,
    student_id: StudentID,
    competence_id: CompetenceID,
    term: TermKey,
) -> RecordId {
    blake2_256(staff_preimage(seed, by, student_id, competence_id, term))
}

/// The identifier of an activity approval made with `seed`.
pub open spec fn activity_record_id(
    seed: Seq<u8>,
    approver: AccountId,
    student_id: StudentID,
    activity_id: ActivityID,
    term: TermKey,
) -> RecordId {
    blake2_256(activity_preimage(seed, approver, student_id, activity_id, term))
}

/// The identifier of an automatic grant made with `seed`.
pub open spec fn auto_record_id(
    seed: Seq<u8>,
    student_id: StudentID,
    competence_id: CompetenceID,
    term: TermKey,
) -> RecordId {
    blake2_256(auto_preimage(seed, student_id, competence_id, term))
}

/// Derives the identifier of a staff grant from the seed and the grant's fields.
pub fn derive_staff_id(
    seed: &Seed,
    by: AccountId,
    student_id: StudentID,
    competence_id: CompetenceID,
    term: TermKey,
) -> (id: RecordId)
    ensures
        id == staff_record_id(seed@, by, student_id, competence_id, term),
{
    let bytes = encode_staff_fields(seed, by, student_id, competence_id, term);
    blake2_256_of(&bytes)
}

/// Derives the identifier of an activity approval from the seed and the
/// approval's fields.
pub fn derive_activity_id(
    seed: &Seed,
    approver: AccountId,
    student_id: StudentID,
    activity_id: ActivityID,
    term: TermKey,
) -> (id: RecordId)
    ensures
        id == activity_record_id(seed@, approver, student_id, activity_id, term),
{
    let bytes = encode_activity_fields(seed, approver, student_id, activity_id, term);
    blake2_256_of(&bytes)
}

/// Derives the identifier of an automatic grant from the seed and the grant's
/// fields.
pub fn derive_auto_id(
    seed: &Seed,
    student_id: StudentID,
    competence_id: CompetenceID,
    term: TermKey,
) -> (id: RecordId)
    ensures
        id == auto_record_id(seed@, student_id, competence_id, term),
{
    let bytes = encode_auto_fields(seed, student_id, competence_id, term);
    blake2_256_of(&bytes)
}

/// Whether two identifiers are the same.
pub fn same_id(a: &RecordId, b: &RecordId) -> (same: bool)
    ensures
        same == (*a == *b),
{
    let mut i: usize = 0;
    while i < 32
        invariant
            i <= 32,
            forall|j: int| 0 <= j < i ==> a[j] == b[j],
        decreases 32 - i,
    {
        if a[i] != b[i] {
            return false;
        }
        i += 1;
    }
    assert(*a =~= *b);
    true
}

} // verus!
