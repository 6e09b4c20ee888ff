use vstd::prelude::*;
use crate::types::{AccountId, ActivityID, CompetenceID, Seed, StudentID, TermKey};

verus! {

/// The `width` low-order bytes of `value`, least significant first.
pub open spec fn le_bytes(value: nat, width: nat) -> Seq<u8>
    decreases width,
{
    if width == 0 {
        Seq::empty()
    } else {
        seq![(value % 256) as u8] + le_bytes(value / 256, (width - 1) as nat)
    }
}

/// The bytes from which the identifier of a staff grant is derived: the seed,
/// then the granter, the student, the competence and the term, each as a
/// fixed-width little-endian integer.
pub open spec fn staff_preimage(
    seed: Seq<u8>,
    by: AccountId,
    student_id: StudentID,
    competence_id: CompetenceID,
    term: TermKey,
) -> Seq<u8> {
    seed + le_bytes(by as nat, 8) + le_bytes(student_id as nat, 8) + le_bytes(
        competence_id as nat,
        2,
    ) + le_bytes(term as nat, 2)
}

/// The bytes from which the identifier of an approved activity is derived.
pub open spec fn activity_preimage(
    seed: Seq<u8>,
    approver: AccountId,
    student_id: StudentID,
    activity_id: ActivityID,
    term: TermKey,
) -> Seq<u8> {
    seed + le_bytes(approver as nat, 8) + le_bytes(student_id as nat, 8) + le_bytes(
        activity_id as nat,
        4,
    ) + le_bytes(term as nat, 2)
}

/// The bytes from which the identifier of an automatic grant is derived: as for
/// a staff grant, without a caller.
pub open spec fn auto_preimage(
    seed: Seq<u8>,
    student_id: StudentID,
    competence_id: CompetenceID,
    term: TermKey,
) -> Seq<u8> {
    seed + le_bytes(student_id as nat, 8) + le_bytes(competence_id as nat, 2) + le_bytes(
        term as nat,
        2,
    )
}

/// `parity_codec::Encode::encode` on the tuple of a staff grant's fields.
/// Not proved: that the codec writes the fields of a tuple one after the other,
/// a byte array as it stands and an unsigned integer in its own width, least
/// significant byte first.
#[verifier::external_body]
pub(crate) fn encode_staff_fields(
    seed: &Seed,
    by: AccountId,
    student_id: StudentID,
    competence_id: CompetenceID,
    term: TermKey,
) -> (out: Vec<u8>)
    ensures
        out@ == staff_preimage(seed@, by, student_id, competence_id, term),
{
    parity_codec::Encode::encode(&(seed, &by, student_id, competence_id, term))
}

/// `parity_codec::Encode::encode` on the tuple of an approved activity's
/// fields. Not proved: as for a staff grant, with the activity in four bytes.
#[verifier::external_body]
pub(crate) fn encode_activity_fields(
    seed: &Seed,
    approver: AccountId,
    student_id: StudentID,
    activity_id: ActivityID,
    term: TermKey,
) -> (out: Vec<u8>)
    ensures
        out@ == activity_preimage(seed@, approver, student_id, activity_id, term),
{
    parity_codec::Encode::encode(&(seed, &approver, student_id, activity_id, term))
}

/// `parity_codec::Encode::encode` on the tuple of an automatic grant's fields.
/// Not proved: as for a staff grant, with no caller among the fields.
#[verifier::external_body]
pub(crate) fn encode_auto_fields(
    seed: &Seed,
    student_id: StudentID,
    competence_id: CompetenceID,
    term: TermKey,
) -> (out: Vec<u8>)
    ensures
        out@ == auto_preimage(seed@, student_id, competence_id, term),
{
    parity_codec::Encode::encode(&(seed, student_id, competence_id, term))
}

} // verus!
