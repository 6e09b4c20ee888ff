use vstd::prelude::*;

verus! {

/// Identifies a student.
pub type StudentID = u64;

/// Identifies a competence; by convention the codes start with the digit 3.
pub type CompetenceID = u16;

/// Identifies an activity; by convention the codes start with the digit 4.
pub type ActivityID = u32;

/// An academic term: the semester digit followed by the four digits of the year.
pub type TermKey = u16;

/// The identity of an authenticated caller.
pub type AccountId = u64;

/// The identifier of a record: a 256-bit digest.
pub type RecordId = [u8; 32];

/// The uniqueness seed that the host hands to each operation.
pub type Seed = [u8; 32];

/// A competence granted to a student by a staff member.
#[derive(PartialEq, Eq, PartialOrd, Ord, Default, Clone, Copy, Hash, Debug)]
pub struct StaffAddCompetence<Hash, AccountId> {
    pub id: Hash,
    pub student_id: StudentID,
    pub competence_id: CompetenceID,
    pub by: AccountId,
    pub semester: TermKey,
}

/// An activity attendance approved by a staff member.
#[derive(PartialEq, Eq, PartialOrd, Ord, Default, Clone, Copy, Hash, Debug)]
pub struct AttendedActivity<Hash, AccountId> {
    pub id: Hash,
    pub student_id: StudentID,
    pub activity_id: ActivityID,
    pub approver: AccountId,
    pub semester: TermKey,
}

/// A competence granted to a student by the system itself.
#[derive(PartialEq, Eq, PartialOrd, Ord, Default, Clone, Copy, Hash, Debug)]
pub struct AutoAddCompetence<Hash> {
    pub id: Hash,
    pub student_id: StudentID,
    pub competence_id: CompetenceID,
    pub semester: TermKey,
}

/// The three kinds of record, each with a store and a by-term index of its own.
#[derive(PartialEq, Eq, Structural, Clone, Copy, Debug)]
pub enum RecordKind {
    StaffCompetence,
    Activity,
    AutoCompetence,
}

/// A record of any kind, as the ledger stores it.
#[derive(PartialEq, Eq, Clone, Copy, Debug)]
pub enum Record {
    StaffCompetence(StaffAddCompetence<RecordId, AccountId>),
    Activity(AttendedActivity<RecordId, AccountId>),
    AutoCompetence(AutoAddCompetence<RecordId>),
}

/// The notification that a successful operation hands to the sink.
#[derive(PartialEq, Eq, Clone, Copy, Debug)]
pub enum Event {
    CompetenceAutoGranted(StudentID, CompetenceID),
    CompetenceGrantedByStaff(StudentID, CompetenceID, AccountId),
    ActivityApproved(StudentID, ActivityID, AccountId),
}

/// Why an operation was refused.
#[derive(PartialEq, Eq, Structural, Clone, Copy, Debug)]
pub enum Error {
    /// The semester is neither 1 nor 2.
    InvalidSemester,
    /// The year lies outside 2000..=3000.
    InvalidYear,
    /// The caller could not be resolved to an identity.
    Unauthorized,
    /// The derived identifier is already taken in the store of its kind.
    DuplicateIdentifier,
}

impl Error {
    /// The message under which the host reports the refusal.
    pub fn message(&self) -> (text: &'static str)
        ensures
            text@ == Self::message_of(*self),
    {
        match self {
            Error::InvalidSemester => "Semester should be only 1 or 2",
            Error::InvalidYear => "Improper academic year",
            Error::Unauthorized => "bad origin: expected to be a signed origin",
            Error::DuplicateIdentifier => "Record identifier already exists",
        }
    }

    /// The text of each refusal.
    pub open spec fn message_of(e: Error) -> Seq<char> {
        match e {
            Error::InvalidSemester => "Semester should be only 1 or 2"@,
            Error::InvalidYear => "Improper academic year"@,
            Error::Unauthorized => "bad origin: expected to be a signed origin"@,
            Error::DuplicateIdentifier => "Record identifier already exists"@,
        }
    }
}

} // verus!
