use vstd::prelude::*;
use crate::ident::{
    activity_record_id, auto_record_id, derive_activity_id, derive_auto_id, derive_staff_id,
    staff_record_id,
};
use crate::index::AppendIndex;
use crate::model::LedgerView;
use crate::store::RecordStore;
use crate::term::{normalize, normalized, term_key};
use crate::types::{
    AccountId, ActivityID, AttendedActivity, AutoAddCompetence, CompetenceID, Error, Event, Record,
    RecordId, RecordKind, Seed, StaffAddCompetence, StudentID, TermKey,
};

verus! {

/// The record of a staff grant made with `seed` in the term `term`.
pub open spec fn staff_grant(
    by: AccountId,
    student_id: StudentID,
    competence_id: CompetenceID,
    term: TermKey,
    seed: Seq<u8>,
) -> Record {
    Record::StaffCompetence(
        StaffAddCompetence {
            id: staff_record_id(seed, by, student_id, competence_id, term),
            student_id,
            competence_id,
            by,
            semester: term,
        },
    )
}

/// The record of an activity approval made with `seed` in the term `term`.
pub open spec fn activity_approval(
    approver: AccountId,
    student_id: StudentID,
    activity_id: ActivityID,
    term: TermKey,
    seed: Seq<u8>,
) -> Record {
    Record::Activity(
        AttendedActivity {
            id: activity_record_id(seed, approver, student_id, activity_id, term),
            student_id,
            activity_id,
            approver,
            semester: term,
        },
    )
}

/// The record of an automatic grant made with `seed` in the term `term`.
pub open spec fn auto_grant(
    student_id: StudentID,
    competence_id: CompetenceID,
    term: TermKey,
    seed: Seq<u8>,
) -> Record {
    Record::AutoCompetence(
        AutoAddCompetence {
            id: auto_record_id(seed, student_id, competence_id, term),
            student_id,
            competence_id,
            semester: term,
        },
    )
}

/// How `staff_add_competence` ends: the caller is judged first, then the
/// semester, then the year, and last whether the identifier is free.
pub open spec fn staff_add_competence_outcome(
    ledger: LedgerView,
    origin: Option<AccountId>,
    student_id: StudentID,
    competence_id: CompetenceID,
    semester: u16,
    year: u16,
    seed: Seq<u8>,
) -> Result<(), Error> {
    match origin {
        None => Err(Error::Unauthorized),
        Some(by) => match normalized(semester, year) {
            Err(e) => Err(e),
            Ok(term) => ledger.store_outcome(
                staff_grant(by, student_id, competence_id, term, seed),
            ),
        },
    }
}

/// How `approve_activity` ends: the caller is judged first, then the semester,
/// then the year, and last whether the identifier is free.
pub open spec fn approve_activity_outcome(
    ledger: LedgerView,
    origin: Option<AccountId>,
    student_id: StudentID,
    activity_id: ActivityID,
    semester: u16,
    year: u16,
    seed: Seq<u8>,
) -> Result<(), Error> {
    match origin {
        None => Err(Error::Unauthorized),
        Some(approver) => match normalized(semester, year) {
            Err(e) => Err(e),
            Ok(term) => ledger.store_outcome(
                activity_approval(approver, student_id, activity_id, term, seed),
            ),
        },
    }
}

/// The ledger of academic achievements: three write-once stores of records,
/// and the indices by student and by term that are kept in step with them.
pub struct Ledger {
    staff_add_competence_map: RecordStore<StaffAddCompetence<RecordId, AccountId>>,
    attended_activity_map: RecordStore<AttendedActivity<RecordId, AccountId>>,
    auto_add_competence_map: RecordStore<AutoAddCompetence<RecordId>>,
    collected_competencies: AppendIndex<StudentID, CompetenceID>,
    attended_activities: AppendIndex<StudentID, ActivityID>,
    staff_add_competencies_semester: AppendIndex<TermKey, RecordId>,
    attended_activities_semester: AppendIndex<TermKey, RecordId>,
    auto_add_competencies_semester: AppendIndex<TermKey, RecordId>,
}

impl View for Ledger {
    type V = LedgerView;

    closed spec fn view(&self) -> LedgerView {
        LedgerView {
            staff_add_competence_map: self.staff_add_competence_map@,
            attended_activity_map: self.attended_activity_map@,
            auto_add_competence_map: self.auto_add_competence_map@,
            collected_competencies: self.collected_competencies@,
            attended_activities: self.attended_activities@,
            staff_add_competencies_semester: self.staff_add_competencies_semester@,
            attended_activities_semester: self.attended_activities_semester@,
            auto_add_competencies_semester: self.auto_add_competencies_semester@,
        }
    }
}

impl Ledger {
    /// The stores and the indices are sound, and the indices are consistent
    /// with the stores.
    pub closed spec fn wf(&self) -> bool {
        &&& self.staff_add_competence_map.wf()
        &&& self.attended_activity_map.wf()
        &&& self.auto_add_competence_map.wf()
        &&& self.collected_competencies.wf()
        &&& self.attended_activities.wf()
        &&& self.staff_add_competencies_semester.wf()
        &&& self.attended_activities_semester.wf()
        &&& self.auto_add_competencies_semester.wf()
        &&& self@.consistent()
    }

    /// In a well-formed ledger the indices are consistent with the stores, and
    /// each store holds finitely many records.
    pub proof fn lemma_wf(&self)
        requires
            self.wf(),
        ensures
            self@.consistent(),
            self@.stores_finite(),
    {
        self.staff_add_competence_map.lemma_finite();
        self.attended_activity_map.lemma_finite();
        self.auto_add_competence_map.lemma_finite();
    }

    /// The ledger in which nothing was recorded yet.
    pub fn new() -> (ledger: Self)
        ensures
            ledger.wf(),
            ledger@ == LedgerView::empty(),
    {
        Ledger {
            staff_add_competence_map: RecordStore::new(),
            attended_activity_map: RecordStore::new(),
            auto_add_competence_map: RecordStore::new(),
            collected_competencies: AppendIndex::<StudentID, CompetenceID>::new(),
            attended_activities: AppendIndex::<StudentID, ActivityID>::new(),
            staff_add_competencies_semester: AppendIndex::<TermKey, RecordId>::new(),
            attended_activities_semester: AppendIndex::<TermKey, RecordId>::new(),
            auto_add_competencies_semester: AppendIndex::<TermKey, RecordId>::new(),
        }
    }

    /// Stores a record under the identifier it carries, appends to the index
    /// of its student and to the index of its term, and hands the record's
    /// notification to the sink: all of it, or nothing where the identifier is
    /// taken.
    pub fn store_record(&mut self, record: Record, sink: &mut Vec<Event>) -> (res: Result<
        (),
        Error,
    >)
        requires
            old(self).wf(),
        ensures
            final(self).wf(),
            res == old(self)@.store_outcome(record),
            res is Ok ==> final(self)@ == old(self)@.with_record(record) && final(sink)@ == old(
                sink,
            )@.push(record.event()),
            res is Err ==> *final(self) == *old(self) && *final(sink) == *old(sink),
    {
        match record {
            Record::StaffCompetence(r) => {
                if self.staff_add_competence_map.contains(&r.id) {
                    return Err(Error::DuplicateIdentifier);
                }
                proof {
                    self@.lemma_with_record_consistent(record);
                }
                let _ = self.staff_add_competence_map.insert(r.id, r);
                self.collected_competencies.append(r.student_id, r.competence_id);
                self.staff_add_competencies_semester.append(r.semester, r.id);
                sink.push(Event::CompetenceGrantedByStaff(r.student_id, r.competence_id, r.by));
            },
            Record::Activity(r) => {
                if self.attended_activity_map.contains(&r.id) {
                    return Err(Error::DuplicateIdentifier);
                }
                proof {
                    self@.lemma_with_record_consistent(record);
                }
                let _ = self.attended_activity_map.insert(r.id, r);
                self.attended_activities.append(r.student_id, r.activity_id);
                self.attended_activities_semester.append(r.semester, r.id);
                sink.push(Event::ActivityApproved(r.student_id, r.activity_id, r.approver));
            },
            Record::AutoCompetence(r) => {
                if self.auto_add_competence_map.contains(&r.id) {
                    return Err(Error::DuplicateIdentifier);
                }
                proof {
                    self@.lemma_with_record_consistent(record);
                }
                let _ = self.auto_add_competence_map.insert(r.id, r);
                self.collected_competencies.append(r.student_id, r.competence_id);
                self.auto_add_competencies_semester.append(r.semester, r.id);
                sink.push(Event::CompetenceAutoGranted(r.student_id, r.competence_id));
            },
        }
        assert(self@ == old(self)@.with_record(record));
        Ok(())
    }

    /// Grants a competence to a student on behalf of a staff member. The
    /// caller must be resolved, the semester 1 or 2 and the year within
    /// 2000..=3000; the record gets the identifier derived from the seed and
    /// its fields. The operation is carried out whole or not at all.
    pub fn staff_add_competence(
        &mut self,
        origin: Option<AccountId>,
        student_id: StudentID,
        competence_id: CompetenceID,
        semester: u16,
        year: u16,
        seed: &Seed,
        sink: &mut Vec<Event>,
    ) -> (res: Result<(), Error>)
        requires
            old(self).wf(),
        ensures
            final(self).wf(),
            res == staff_add_competence_outcome(
                old(self)@,
                origin,
                student_id,
                competence_id,
                semester,
                year,
                seed@,
            ),
            res is Ok ==> final(self)@ == old(self)@.with_record(
                staff_grant(
                    origin->Some_0,
                    student_id,
                    competence_id,
                    term_key(semester, year) as u16,
                    seed@,
                ),
            ) && final(sink)@ == old(sink)@.push(
                Event::CompetenceGrantedByStaff(student_id, competence_id, origin->Some_0),
            ),
            res is Err ==> *final(self) == *old(self) && *final(sink) == *old(sink),
    {
        let by = match origin {
            Some(by) => by,
            None => {
                return Err(Error::Unauthorized);
            },
        };
        let term = match normalize(semester, year) {
            Ok(term) => term,
            Err(e) => {
                return Err(e);
            },
        };
        let id = derive_staff_id(seed, by, student_id, competence_id, term);
        let record = StaffAddCompetence { id, student_id, competence_id, by, semester: term };
        self.store_record(Record::StaffCompetence(record), sink)
    }

    /// Records that a staff member approved a student's attendance of an
    /// activity. The caller must be resolved, the semester 1 or 2 and the year
    /// within 2000..=3000; the record gets the identifier derived from the
    /// seed and its fields. The operation is carried out whole or not at all.
    pub fn approve_activity(
        &mut self,
        origin: Option<AccountId>,
        student_id: StudentID,
        activity_id: ActivityID,
        semester: u16,
        year: u16,
        seed: &Seed,
        sink: &mut Vec<Event>,
    ) -> (res: Result<(), Error>)
        requires
            old(self).wf(),
        ensures
            final(self).wf(),
            res == approve_activity_outcome(
                old(self)@,
                origin,
                student_id,
                activity_id,
                semester,
                year,
                seed@,
            ),
            res is Ok ==> final(self)@ == old(self)@.with_record(
                activity_approval(
                    origin->Some_0,
                    student_id,
                    activity_id,
                    term_key(semester, year) as u16,
                    seed@,
                ),
            ) && final(sink)@ == old(sink)@.push(
                Event::ActivityApproved(student_id, activity_id, origin->Some_0),
            ),
            res is Err ==> *final(self) == *old(self) && *final(sink) == *old(sink),
    {
        let approver = match origin {
            Some(approver) => approver,
            None => {
                return Err(Error::Unauthorized);
            },
        };
        let term = match normalize(semester, year) {
            Ok(term) => term,
            Err(e) => {
                return Err(e);
            },
        };
        let id = derive_activity_id(seed, approver, student_id, activity_id, term);
        let record = AttendedActivity { id, student_id, activity_id, approver, semester: term };
        self.store_record(Record::Activity(record), sink)
    }

    /// Grants a competence to a student on the system's own account: no
    /// caller, and the term is taken as it is given. The record gets the
    /// identifier derived from the seed and its fields. The operation is
    /// carried out whole or not at all.
    pub fn auto_add_competence(
        &mut self,
        student_id: StudentID,
        competence_id: CompetenceID,
        semester: TermKey,
        seed: &Seed,
        sink: &mut Vec<Event>,
    ) -> (res: Result<(), Error>)
        requires
            old(self).wf(),
        ensures
            final(self).wf(),
            res == old(self)@.store_outcome(auto_grant(student_id, competence_id, semester, seed@)),
            res is Ok ==> final(self)@ == old(self)@.with_record(
                auto_grant(student_id, competence_id, semester, seed@),
            ) && final(sink)@ == old(sink)@.push(
                Event::CompetenceAutoGranted(student_id, competence_id),
            ),
            res is Err ==> *final(self) == *old(self) && *final(sink) == *old(sink),
    {
        let id = derive_auto_id(seed, student_id, competence_id, semester);
        let record = AutoAddCompetence { id, student_id, competence_id, semester };
        self.store_record(Record::AutoCompetence(record), sink)
    }

    /// The competences of a student in the order of their granting, with
    /// repetitions; none for a student without grants.
    pub fn competencies_of(&self, student_id: StudentID) -> (codes: Vec<CompetenceID>)
        requires
            self.wf(),
        ensures
            codes@ == self@.competencies_of(student_id),
    {
        self.collected_competencies.get(student_id)
    }

    /// The activities of a student in the order of their approval, with
    /// repetitions; none for a student without approvals.
    pub fn activities_of(&self, student_id: StudentID) -> (codes: Vec<ActivityID>)
        requires
            self.wf(),
        ensures
            codes@ == self@.activities_of(student_id),
    {
        self.attended_activities.get(student_id)
    }

    /// The identifiers of the records of one kind and one term, oldest first;
    /// none for a term without records of that kind.
    pub fn records_in_term(&self, kind: RecordKind, term: TermKey) -> (ids: Vec<RecordId>)
        requires
            self.wf(),
        ensures
            ids@ == self@.records_in_term(kind, term),
    {
        match kind {
            RecordKind::StaffCompetence => self.staff_add_competencies_semester.get(term),
            RecordKind::Activity => self.attended_activities_semester.get(term),
            RecordKind::AutoCompetence => self.auto_add_competencies_semester.get(term),
        }
    }

    /// The record of `kind` stored under `id`, if there is one.
    pub fn record_by_id(&self, kind: RecordKind, id: &RecordId) -> (found: Option<Record>)
        requires
            self.wf(),
        ensures
            found == self@.record_by_id(kind, *id),
    {
        match kind {
            RecordKind::StaffCompetence => match self.staff_add_competence_map.get(id) {
                Some(r) => Some(Record::StaffCompetence(*r)),
                None => None,
            },
            RecordKind::Activity => match self.attended_activity_map.get(id) {
                Some(r) => Some(Record::Activity(*r)),
                None => None,
            },
            RecordKind::AutoCompetence => match self.auto_add_competence_map.get(id) {
                Some(r) => Some(Record::AutoCompetence(*r)),
                None => None,
            },
        }
    }

    /// The number of records of `kind` in the ledger.
    pub fn record_count(&self, kind: RecordKind) -> (n: usize)
        requires
            self.wf(),
        ensures
            n == self@.record_count(kind),
    {
        match kind {
            RecordKind::StaffCompetence => self.staff_add_competence_map.len(),
            RecordKind::Activity => self.attended_activity_map.len(),
            RecordKind::AutoCompetence => self.auto_add_competence_map.len(),
        }
    }
}

} // verus!
