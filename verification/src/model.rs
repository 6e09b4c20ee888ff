use vstd::prelude::*;
use crate::index::{appended, entries_of};
use crate::types::{
    AccountId, ActivityID, AttendedActivity, AutoAddCompetence, CompetenceID, Error, Event, Record,
    RecordId, RecordKind, StaffAddCompetence, StudentID, TermKey,
};

verus! {

/// What every kind of record has: an identifier and a term.
pub trait Entry {
    spec fn entry_id(&self) -> RecordId;

    spec fn entry_term(&self) -> TermKey;
}

impl Entry for StaffAddCompetence<RecordId, AccountId> {
    open spec fn entry_id(&self) -> RecordId {
        self.id
    }

    open spec fn entry_term(&self) -> TermKey {
        self.semester
    }
}

impl Entry for AttendedActivity<RecordId, AccountId> {
    open spec fn entry_id(&self) -> RecordId {
        self.id
    }

    open spec fn entry_term(&self) -> TermKey {
        self.semester
    }
}

impl Entry for AutoAddCompetence<RecordId> {
    open spec fn entry_id(&self) -> RecordId {
        self.id
    }

    open spec fn entry_term(&self) -> TermKey {
        self.semester
    }
}

impl Record {
    pub open spec fn kind(self) -> RecordKind {
        match self {
            Record::StaffCompetence(_) => RecordKind::StaffCompetence,
            Record::Activity(_) => RecordKind::Activity,
            Record::AutoCompetence(_) => RecordKind::AutoCompetence,
        }
    }

    pub open spec fn id(self) -> RecordId {
        match self {
            Record::StaffCompetence(r) => r.id,
            Record::Activity(r) => r.id,
            Record::AutoCompetence(r) => r.id,
        }
    }

    pub open spec fn student_id(self) -> StudentID {
        match self {
            Record::StaffCompetence(r) => r.student_id,
            Record::Activity(r) => r.student_id,
            Record::AutoCompetence(r) => r.student_id,
        }
    }

    pub open spec fn semester(self) -> TermKey {
        match self {
            Record::StaffCompetence(r) => r.semester,
            Record::Activity(r) => r.semester,
            Record::AutoCompetence(r) => r.semester,
        }
    }

    /// The notification that goes out when the record is stored.
    pub open spec fn event(self) -> Event {
        match self {
            Record::StaffCompetence(r) => Event::CompetenceGrantedByStaff(
                r.student_id,
                r.competence_id,
                r.by,
            ),
            Record::Activity(r) => Event::ActivityApproved(r.student_id, r.activity_id, r.approver),
            Record::AutoCompetence(r) => Event::CompetenceAutoGranted(
                r.student_id,
                r.competence_id,
            ),
        }
    }
}

/// A store and its by-term index agree: each record is stored under its own
/// identifier, the index of a term lists exactly the records of that term,
/// and each of them once.
pub open spec fn term_index_agrees<R: Entry>(
    store: Map<RecordId, R>,
    terms: Map<TermKey, Seq<RecordId>>,
) -> bool {
    &&& forall|id: RecordId| #[trigger] store.contains_key(id) ==> store[id].entry_id() == id
    &&& forall|id: RecordId| #[trigger]
        store.contains_key(id) ==> entries_of(terms, store[id].entry_term()).contains(id)
    &&& forall|t: TermKey, i: int|
        0 <= i < entries_of(terms, t).len() ==> store.contains_key(
            #[trigger] entries_of(terms, t)[i],
        ) && store[entries_of(terms, t)[i]].entry_term() == t
    &&& forall|t: TermKey| #[trigger] entries_of(terms, t).no_duplicates()
}

/// Storing a record under a fresh identifier and appending the identifier to
/// the index of the record's term keeps store and index in agreement.
pub proof fn lemma_term_index_grows<R: Entry>(
    store: Map<RecordId, R>,
    terms: Map<TermKey, Seq<RecordId>>,
    record: R,
)
    requires
        term_index_agrees(store, terms),
        !store.contains_key(record.entry_id()),
    ensures
        term_index_agrees(
            store.insert(record.entry_id(), record),
            appended(terms, record.entry_term(), record.entry_id()),
        ),
{
    let id = record.entry_id();
    let term = record.entry_term();
    let store2 = store.insert(id, record);
    let terms2 = appended(terms, term, id);
    let old_list = entries_of(terms, term);
    assert forall|t: TermKey| #[trigger]
        entries_of(terms2, t) == if t == term {
            old_list.push(id)
        } else {
            entries_of(terms, t)
        } by {}
    assert(!old_list.contains(id)) by {
        if old_list.contains(id) {
            let i = old_list.index_of(id);
            assert(store.contains_key(entries_of(terms, term)[i]));
        }
    }
    assert forall|k: RecordId| #[trigger] store2.contains_key(k) implies entries_of(
        terms2,
        store2[k].entry_term(),
    ).contains(k) by {
        if k == id {
            assert(old_list.push(id)[old_list.len() as int] == id);
        } else {
            let t = store[k].entry_term();
            let i = entries_of(terms, t).index_of(k);
            assert(entries_of(terms, t)[i] == k);
            if t == term {
                assert(old_list.push(id)[i] == k);
            }
        }
    }
    assert forall|t: TermKey, i: int|
        0 <= i < entries_of(terms2, t).len() implies store2.contains_key(
        #[trigger] entries_of(terms2, t)[i],
    ) && store2[entries_of(terms2, t)[i]].entry_term() == t by {
        if t == term && i == old_list.len() {
        } else {
            assert(entries_of(terms2, t)[i] == entries_of(terms, t)[i]);
            assert(store.contains_key(entries_of(terms, t)[i]));
        }
    }
    assert forall|t: TermKey| #[trigger] entries_of(terms2, t).no_duplicates() by {
        assert(entries_of(terms, t).no_duplicates());
    }
}

/// Whether some stored grant, by staff or automatic, gives `student_id` the
/// competence `competence_id`.
pub open spec fn competence_recorded(
    staff: Map<RecordId, StaffAddCompetence<RecordId, AccountId>>,
    auto: Map<RecordId, AutoAddCompetence<RecordId>>,
    student_id: StudentID,
    competence_id: CompetenceID,
) -> bool {
    ||| exists|id: RecordId| #[trigger]
        staff.contains_key(id) && staff[id].student_id == student_id && staff[id].competence_id
            == competence_id
    ||| exists|id: RecordId| #[trigger]
        auto.contains_key(id) && auto[id].student_id == student_id && auto[id].competence_id
            == competence_id
}

/// Whether some stored approval records that `student_id` attended `activity_id`.
pub open spec fn activity_recorded(
    activity: Map<RecordId, AttendedActivity<RecordId, AccountId>>,
    student_id: StudentID,
    activity_id: ActivityID,
) -> bool {
    exists|id: RecordId| #[trigger]
        activity.contains_key(id) && activity[id].student_id == student_id
            && activity[id].activity_id == activity_id
}

/// The index of competences by student holds the competence of every stored
/// grant, and nothing that no stored grant accounts for.
pub open spec fn competence_index_agrees(
    staff: Map<RecordId, StaffAddCompetence<RecordId, AccountId>>,
    auto: Map<RecordId, AutoAddCompetence<RecordId>>,
    competencies: Map<StudentID, Seq<CompetenceID>>,
) -> bool {
    &&& forall|id: RecordId| #[trigger]
        staff.contains_key(id) ==> entries_of(competencies, staff[id].student_id).contains(
            staff[id].competence_id,
        )
    &&& forall|id: RecordId| #[trigger]
        auto.contains_key(id) ==> entries_of(competencies, auto[id].student_id).contains(
            auto[id].competence_id,
        )
    &&& forall|s: StudentID, i: int|
        0 <= i < entries_of(competencies, s).len() ==> competence_recorded(
            staff,
            auto,
            s,
            #[trigger] entries_of(competencies, s)[i],
        )
}

/// The index of activities by student holds the activity of every stored
/// approval, and nothing that no stored approval accounts for.
pub open spec fn activity_index_agrees(
    activity: Map<RecordId, AttendedActivity<RecordId, AccountId>>,
    activities: Map<StudentID, Seq<ActivityID>>,
) -> bool {
    &&& forall|id: RecordId| #[trigger]
        activity.contains_key(id) ==> entries_of(activities, activity[id].student_id).contains(
            activity[id].activity_id,
        )
    &&& forall|s: StudentID, i: int|
        0 <= i < entries_of(activities, s).len() ==> activity_recorded(
            activity,
            s,
            #[trigger] entries_of(activities, s)[i],
        )
}

proof fn lemma_grown_entries<K, V>(index: Map<K, Seq<V>>, key: K, value: V)
    ensures
        forall|k: K| #[trigger]
            entries_of(appended(index, key, value), k) == if k == key {
                entries_of(index, key).push(value)
            } else {
                entries_of(index, k)
            },
        forall|k: K, v: V|
            entries_of(index, k).contains(v) ==> #[trigger] entries_of(
                appended(index, key, value),
                k,
            ).contains(v),
        entries_of(appended(index, key, value), key).contains(value),
{
    let grown = appended(index, key, value);
    let list = entries_of(index, key);
    assert(list.push(value)[list.len() as int] == value);
    assert forall|k: K, v: V| entries_of(index, k).contains(v) implies #[trigger] entries_of(
        grown,
        k,
    ).contains(v) by {
        let i = entries_of(index, k).index_of(v);
        assert(entries_of(grown, k)[i] == v);
    }
}

/// Storing a staff grant under a fresh identifier and appending its
/// competence to the index of its student keeps stores and index in agreement.
pub proof fn lemma_competence_index_grows_by_staff(
    staff: Map<RecordId, StaffAddCompetence<RecordId, AccountId>>,
    auto: Map<RecordId, AutoAddCompetence<RecordId>>,
    competencies: Map<StudentID, Seq<CompetenceID>>,
    record: StaffAddCompetence<RecordId, AccountId>,
)
    requires
        competence_index_agrees(staff, auto, competencies),
        !staff.contains_key(record.id),
    ensures
        competence_index_agrees(
            staff.insert(record.id, record),
            auto,
            appended(competencies, record.student_id, record.competence_id),
        ),
{
    let staff2 = staff.insert(record.id, record);
    let grown = appended(competencies, record.student_id, record.competence_id);
    let n = entries_of(competencies, record.student_id).len() as int;
    lemma_grown_entries(competencies, record.student_id, record.competence_id);
    assert forall|s: StudentID, i: int|
        0 <= i < entries_of(grown, s).len() implies competence_recorded(
        staff2,
        auto,
        s,
        #[trigger] entries_of(grown, s)[i],
    ) by {
        let c = entries_of(grown, s)[i];
        if s == record.student_id && i == n {
            assert(staff2.contains_key(record.id));
        } else {
            assert(c == entries_of(competencies, s)[i]);
            lemma_still_recorded(staff, auto, staff2, auto, s, c);
        }
    }
}

/// Storing an automatic grant under a fresh identifier and appending its
/// competence to the index of its student keeps stores and index in agreement.
pub proof fn lemma_competence_index_grows_by_auto(
    staff: Map<RecordId, StaffAddCompetence<RecordId, AccountId>>,
    auto: Map<RecordId, AutoAddCompetence<RecordId>>,
    competencies: Map<StudentID, Seq<CompetenceID>>,
    record: AutoAddCompetence<RecordId>,
)
    requires
        competence_index_agrees(staff, auto, competencies),
        !auto.contains_key(record.id),
    ensures
        competence_index_agrees(
            staff,
            auto.insert(record.id, record),
            appended(competencies, record.student_id, record.competence_id),
        ),
{
    let auto2 = auto.insert(record.id, record);
    let grown = appended(competencies, record.student_id, record.competence_id);
    let n = entries_of(competencies, record.student_id).len() as int;
    lemma_grown_entries(competencies, record.student_id, record.competence_id);
    assert forall|s: StudentID, i: int|
        0 <= i < entries_of(grown, s).len() implies competence_recorded(
        staff,
        auto2,
        s,
        #[trigger] entries_of(grown, s)[i],
    ) by {
        let c = entries_of(grown, s)[i];
        if s == record.student_id && i == n {
            assert(auto2.contains_key(record.id));
        } else {
            assert(c == entries_of(competencies, s)[i]);
            lemma_still_recorded(staff, auto, staff, auto2, s, c);
        }
    }
}

proof fn lemma_still_recorded(
    staff: Map<RecordId, StaffAddCompetence<RecordId, AccountId>>,
    auto: Map<RecordId, AutoAddCompetence<RecordId>>,
    staff2: Map<RecordId, StaffAddCompetence<RecordId, AccountId>>,
    auto2: Map<RecordId, AutoAddCompetence<RecordId>>,
    student_id: StudentID,
    competence_id: CompetenceID,
)
    requires
        competence_recorded(staff, auto, student_id, competence_id),
        forall|id: RecordId| #[trigger]
            staff.contains_key(id) ==> staff2.contains_key(id) && staff2[id] == staff[id],
        forall|id: RecordId| #[trigger]
            auto.contains_key(id) ==> auto2.contains_key(id) && auto2[id] == auto[id],
    ensures
        competence_recorded(staff2, auto2, student_id, competence_id),
{
    if exists|id: RecordId| #[trigger]
        staff.contains_key(id) && staff[id].student_id == student_id && staff[id].competence_id
            == competence_id {
        let id = choose|id: RecordId| #[trigger]
            staff.contains_key(id) && staff[id].student_id == student_id
                && staff[id].competence_id == competence_id;
        assert(staff2.contains_key(id));
    } else {
        let id = choose|id: RecordId| #[trigger]
            auto.contains_key(id) && auto[id].student_id == student_id && auto[id].competence_id
                == competence_id;
        assert(auto2.contains_key(id));
    }
}

/// Storing an approval under a fresh identifier and appending its activity to
/// the index of its student keeps store and index in agreement.
pub proof fn lemma_activity_index_grows(
    activity: Map<RecordId, AttendedActivity<RecordId, AccountId>>,
    activities: Map<StudentID, Seq<ActivityID>>,
    record: AttendedActivity<RecordId, AccountId>,
)
    requires
        activity_index_agrees(activity, activities),
        !activity.contains_key(record.id),
    ensures
        activity_index_agrees(
            activity.insert(record.id, record),
            appended(activities, record.student_id, record.activity_id),
        ),
{
    let activity2 = activity.insert(record.id, record);
    let grown = appended(activities, record.student_id, record.activity_id);
    let n = entries_of(activities, record.student_id).len() as int;
    lemma_grown_entries(activities, record.student_id, record.activity_id);
    assert forall|s: StudentID, i: int|
        0 <= i < entries_of(grown, s).len() implies activity_recorded(
        activity2,
        s,
        #[trigger] entries_of(grown, s)[i],
    ) by {
        let c = entries_of(grown, s)[i];
        if s == record.student_id && i == n {
            assert(activity2.contains_key(record.id));
        } else {
            assert(c == entries_of(activities, s)[i]);
            assert(activity_recorded(activity, s, c));
            let id = choose|id: RecordId| #[trigger]
                activity.contains_key(id) && activity[id].student_id == s
                    && activity[id].activity_id == c;
            assert(activity2.contains_key(id));
        }
    }
}

/// The mathematical state of a ledger: the three stores, the two indices by
/// student and the three indices by term.
pub struct LedgerView {
    pub staff_add_competence_map: Map<RecordId, StaffAddCompetence<RecordId, AccountId>>,
    pub attended_activity_map: Map<RecordId, AttendedActivity<RecordId, AccountId>>,
    pub auto_add_competence_map: Map<RecordId, AutoAddCompetence<RecordId>>,
    pub collected_competencies: Map<StudentID, Seq<CompetenceID>>,
    pub attended_activities: Map<StudentID, Seq<ActivityID>>,
    pub staff_add_competencies_semester: Map<TermKey, Seq<RecordId>>,
    pub attended_activities_semester: Map<TermKey, Seq<RecordId>>,
    pub auto_add_competencies_semester: Map<TermKey, Seq<RecordId>>,
}

impl LedgerView {
    /// The state in which nothing was recorded yet.
    pub open spec fn empty() -> LedgerView {
        LedgerView {
            staff_add_competence_map: Map::empty(),
            attended_activity_map: Map::empty(),
            auto_add_competence_map: Map::empty(),
            collected_competencies: Map::empty(),
            attended_activities: Map::empty(),
            staff_add_competencies_semester: Map::empty(),
            attended_activities_semester: Map::empty(),
            auto_add_competencies_semester: Map::empty(),
        }
    }

    /// The competences of a student in the order of their granting, by staff
    /// or automatic, with repetitions.
    pub open spec fn competencies_of(self, student_id: StudentID) -> Seq<CompetenceID> {
        entries_of(self.collected_competencies, student_id)
    }

    /// The activities of a student in the order of their approval.
    pub open spec fn activities_of(self, student_id: StudentID) -> Seq<ActivityID> {
        entries_of(self.attended_activities, student_id)
    }

    /// The identifiers of the records of one kind and one term, oldest first.
    pub open spec fn records_in_term(self, kind: RecordKind, term: TermKey) -> Seq<RecordId> {
        match kind {
            RecordKind::StaffCompetence => entries_of(self.staff_add_competencies_semester, term),
            RecordKind::Activity => entries_of(self.attended_activities_semester, term),
            RecordKind::AutoCompetence => entries_of(self.auto_add_competencies_semester, term),
        }
    }

    /// Whether the store of `kind` holds a record under `id`.
    pub open spec fn has_record(self, kind: RecordKind, id: RecordId) -> bool {
        match kind {
            RecordKind::StaffCompetence => self.staff_add_competence_map.contains_key(id),
            RecordKind::Activity => self.attended_activity_map.contains_key(id),
            RecordKind::AutoCompetence => self.auto_add_competence_map.contains_key(id),
        }
    }

    /// The record that the store of `kind` holds under `id`.
    pub open spec fn record_by_id(self, kind: RecordKind, id: RecordId) -> Option<Record> {
        if !self.has_record(kind, id) {
            None
        } else {
            Some(
                match kind {
                    RecordKind::StaffCompetence => Record::StaffCompetence(
                        self.staff_add_competence_map[id],
                    ),
                    RecordKind::Activity => Record::Activity(self.attended_activity_map[id]),
                    RecordKind::AutoCompetence => Record::AutoCompetence(
                        self.auto_add_competence_map[id],
                    ),
                },
            )
        }
    }

    /// The number of records in the store of `kind`.
    pub open spec fn record_count(self, kind: RecordKind) -> nat {
        match kind {
            RecordKind::StaffCompetence => self.staff_add_competence_map.len(),
            RecordKind::Activity => self.attended_activity_map.len(),
            RecordKind::AutoCompetence => self.auto_add_competence_map.len(),
        }
    }

    /// Whether `record` can be stored: its identifier is not taken in the
    /// store of its kind.
    pub open spec fn admits(self, record: Record) -> bool {
        !self.has_record(record.kind(), record.id())
    }

    /// How an attempt to store `record` ends.
    pub open spec fn store_outcome(self, record: Record) -> Result<(), Error> {
        if self.admits(record) {
            Ok(())
        } else {
            Err(Error::DuplicateIdentifier)
        }
    }

    /// The state after `record` was stored: its store has it under its
    /// identifier, and the index of its student and the index of its term
    /// have one entry more, at the end.
    pub open spec fn with_record(self, record: Record) -> LedgerView {
        match record {
            Record::StaffCompetence(r) => LedgerView {
                staff_add_competence_map: self.staff_add_competence_map.insert(r.id, r),
                collected_competencies: appended(
                    self.collected_competencies,
                    r.student_id,
                    r.competence_id,
                ),
                staff_add_competencies_semester: appended(
                    self.staff_add_competencies_semester,
                    r.semester,
                    r.id,
                ),
                ..self
            },
            Record::Activity(r) => LedgerView {
                attended_activity_map: self.attended_activity_map.insert(r.id, r),
                attended_activities: appended(
                    self.attended_activities,
                    r.student_id,
                    r.activity_id,
                ),
                attended_activities_semester: appended(
                    self.attended_activities_semester,
                    r.semester,
                    r.id,
                ),
                ..self
            },
            Record::AutoCompetence(r) => LedgerView {
                auto_add_competence_map: self.auto_add_competence_map.insert(r.id, r),
                collected_competencies: appended(
                    self.collected_competencies,
                    r.student_id,
                    r.competence_id,
                ),
                auto_add_competencies_semester: appended(
                    self.auto_add_competencies_semester,
                    r.semester,
                    r.id,
                ),
                ..self
            },
        }
    }

    /// Each store holds finitely many records.
    pub open spec fn stores_finite(self) -> bool {
        &&& self.staff_add_competence_map.dom().finite()
        &&& self.attended_activity_map.dom().finite()
        &&& self.auto_add_competence_map.dom().finite()
    }

    /// The indices are consistent with the stores.
    pub open spec fn consistent(self) -> bool {
        &&& term_index_agrees(self.staff_add_competence_map, self.staff_add_competencies_semester)
        &&& term_index_agrees(self.attended_activity_map, self.attended_activities_semester)
        &&& term_index_agrees(self.auto_add_competence_map, self.auto_add_competencies_semester)
        &&& competence_index_agrees(
            self.staff_add_competence_map,
            self.auto_add_competence_map,
            self.collected_competencies,
        )
        &&& activity_index_agrees(self.attended_activity_map, self.attended_activities)
    }

    /// The empty state is consistent.
    pub proof fn lemma_empty_consistent()
        ensures
            Self::empty().consistent(),
    {
    }

    /// Storing a record that the state admits keeps the state consistent.
    pub proof fn lemma_with_record_consistent(self, record: Record)
        requires
            self.consistent(),
            self.admits(record),
        ensures
            self.with_record(record).consistent(),
    {
        match record {
            Record::StaffCompetence(r) => {
                lemma_term_index_grows(
                    self.staff_add_competence_map,
                    self.staff_add_competencies_semester,
                    r,
                );
                lemma_competence_index_grows_by_staff(
                    self.staff_add_competence_map,
                    self.auto_add_competence_map,
                    self.collected_competencies,
                    r,
                );
            },
            Record::Activity(r) => {
                lemma_term_index_grows(
                    self.attended_activity_map,
                    self.attended_activities_semester,
                    r,
                );
                lemma_activity_index_grows(self.attended_activity_map, self.attended_activities, r);
            },
            Record::AutoCompetence(r) => {
                lemma_term_index_grows(
                    self.auto_add_competence_map,
                    self.auto_add_competencies_semester,
                    r,
                );
                lemma_competence_index_grows_by_auto(
                    self.staff_add_competence_map,
                    self.auto_add_competence_map,
                    self.collected_competencies,
                    r,
                );
            },
        }
    }
}

} // verus!
