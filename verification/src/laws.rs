use vstd::prelude::*;
use vstd::seq_lib::{to_multiset_build, to_multiset_contains, to_multiset_len, to_multiset_remove};
use crate::index::{appended, entries_of};
use crate::ledger::{approve_activity_outcome, staff_add_competence_outcome, staff_grant};
use crate::model::{activity_recorded, competence_recorded, LedgerView};
use crate::term::{valid_semester, valid_year};
use crate::types::{
    AccountId, ActivityID, CompetenceID, Error, Record, RecordId, RecordKind, StudentID, TermKey,
};

verus! {

/// With a semester other than 1 and 2, or a year outside 2000..=3000, a staff
/// grant and an activity approval are refused, whatever else they are given.
pub proof fn lemma_invalid_term_is_refused(
    ledger: LedgerView,
    origin: Option<AccountId>,
    student_id: StudentID,
    competence_id: CompetenceID,
    activity_id: ActivityID,
    semester: u16,
    year: u16,
    seed: Seq<u8>,
)
    requires
        !valid_semester(semester) || !valid_year(year),
    ensures
        staff_add_competence_outcome(
            ledger,
            origin,
            student_id,
            competence_id,
            semester,
            year,
            seed,
        ) is Err,
        approve_activity_outcome(
            ledger,
            origin,
            student_id,
            activity_id,
            semester,
            year,
            seed,
        ) is Err,
        origin is Some && !valid_semester(semester) ==> staff_add_competence_outcome(
            ledger,
            origin,
            student_id,
            competence_id,
            semester,
            year,
            seed,
        ) == Err::<(), Error>(Error::InvalidSemester) && approve_activity_outcome(
            ledger,
            origin,
            student_id,
            activity_id,
            semester,
            year,
            seed,
        ) == Err::<(), Error>(Error::InvalidSemester),
        origin is Some && valid_semester(semester) ==> staff_add_competence_outcome(
            ledger,
            origin,
            student_id,
            competence_id,
            semester,
            year,
            seed,
        ) == Err::<(), Error>(Error::InvalidYear) && approve_activity_outcome(
            ledger,
            origin,
            student_id,
            activity_id,
            semester,
            year,
            seed,
        ) == Err::<(), Error>(Error::InvalidYear),
{
}

/// Once a record is stored, the store of its kind holds it under its
/// identifier and holds one record more than before, and the index of its
/// term ends with its identifier.
pub proof fn lemma_stored_record_is_found(ledger: LedgerView, record: Record)
    requires
        ledger.stores_finite(),
        ledger.admits(record),
    ensures
        ledger.with_record(record).record_by_id(record.kind(), record.id()) == Some(record),
        ledger.with_record(record).records_in_term(record.kind(), record.semester())
            == ledger.records_in_term(record.kind(), record.semester()).push(record.id()),
        ledger.with_record(record).records_in_term(record.kind(), record.semester()).contains(
            record.id(),
        ),
        ledger.with_record(record).stores_finite(),
        ledger.with_record(record).record_count(record.kind()) == ledger.record_count(
            record.kind(),
        ) + 1,
{
    let list = ledger.records_in_term(record.kind(), record.semester());
    assert(list.push(record.id())[list.len() as int] == record.id());
}

/// Storing a record takes nothing away and adds nothing else: every record
/// stored before is found as it was, no other record appears, each index
/// entry begins with what it held before, and the entries of other students
/// and other terms are what they were.
pub proof fn lemma_storing_only_appends(ledger: LedgerView, record: Record)
    requires
        ledger.admits(record),
    ensures
        forall|kind: RecordKind, id: RecordId|
            ledger.has_record(kind, id) ==> #[trigger] ledger.with_record(record).record_by_id(
                kind,
                id,
            ) == ledger.record_by_id(kind, id),
        forall|kind: RecordKind, id: RecordId| #[trigger]
            ledger.with_record(record).has_record(kind, id) ==> ledger.has_record(kind, id) || (kind
                == record.kind() && id == record.id()),
        forall|s: StudentID|
            ledger.competencies_of(s).is_prefix_of(
                #[trigger] ledger.with_record(record).competencies_of(s),
            ),
        forall|s: StudentID|
            ledger.activities_of(s).is_prefix_of(
                #[trigger] ledger.with_record(record).activities_of(s),
            ),
        forall|kind: RecordKind, term: TermKey|
            ledger.records_in_term(kind, term).is_prefix_of(
                #[trigger] ledger.with_record(record).records_in_term(kind, term),
            ),
        forall|s: StudentID|
            s != record.student_id() ==> #[trigger] ledger.with_record(record).competencies_of(s)
                == ledger.competencies_of(s) && ledger.with_record(record).activities_of(s)
                == ledger.activities_of(s),
        forall|kind: RecordKind, term: TermKey|
            kind != record.kind() || term != record.semester() ==> #[trigger] ledger.with_record(
                record,
            ).records_in_term(kind, term) == ledger.records_in_term(kind, term),
{
}

/// Once a grant is stored, by staff or automatic, the competences of its
/// student end with its competence.
pub proof fn lemma_granted_competence_is_listed(ledger: LedgerView, record: Record)
    requires
        record is StaffCompetence || record is AutoCompetence,
    ensures
        ({
            let competence_id = match record {
                Record::StaffCompetence(r) => r.competence_id,
                Record::AutoCompetence(r) => r.competence_id,
                Record::Activity(r) => 0,
            };
            &&& ledger.with_record(record).competencies_of(record.student_id())
                == ledger.competencies_of(record.student_id()).push(competence_id)
            &&& ledger.with_record(record).competencies_of(record.student_id()).contains(
                competence_id,
            )
        }),
{
    let competence_id = match record {
        Record::StaffCompetence(r) => r.competence_id,
        Record::AutoCompetence(r) => r.competence_id,
        Record::Activity(r) => 0,
    };
    let list = ledger.competencies_of(record.student_id());
    assert(list.push(competence_id)[list.len() as int] == competence_id);
}

/// Once an approval is stored, the activities of its student end with its
/// activity.
pub proof fn lemma_approved_activity_is_listed(ledger: LedgerView, record: Record)
    requires
        record is Activity,
    ensures
        ledger.with_record(record).activities_of(record.student_id()) == ledger.activities_of(
            record.student_id(),
        ).push(record->Activity_0.activity_id),
        ledger.with_record(record).activities_of(record.student_id()).contains(
            record->Activity_0.activity_id,
        ),
{
    let list = ledger.activities_of(record.student_id());
    let code = record->Activity_0.activity_id;
    assert(list.push(code)[list.len() as int] == code);
}

/// Where nothing was recorded yet, a student has no competences and no
/// activities, a term has no records, and no identifier leads to a record.
pub proof fn lemma_nothing_recorded(
    student_id: StudentID,
    kind: RecordKind,
    term: TermKey,
    id: RecordId,
)
    ensures
        LedgerView::empty().competencies_of(student_id) == Seq::<CompetenceID>::empty(),
        LedgerView::empty().activities_of(student_id) == Seq::<ActivityID>::empty(),
        LedgerView::empty().records_in_term(kind, term) == Seq::<RecordId>::empty(),
        LedgerView::empty().record_by_id(kind, id) == None::<Record>,
        LedgerView::empty().record_count(kind) == 0,
{
}

/// In a consistent ledger a student of whom no grant is stored has no
/// competences.
pub proof fn lemma_no_grant_no_competence(ledger: LedgerView, student_id: StudentID)
    requires
        ledger.consistent(),
        forall|id: RecordId| #[trigger]
            ledger.staff_add_competence_map.contains_key(id)
                ==> ledger.staff_add_competence_map[id].student_id != student_id,
        forall|id: RecordId| #[trigger]
            ledger.auto_add_competence_map.contains_key(id)
                ==> ledger.auto_add_competence_map[id].student_id != student_id,
    ensures
        ledger.competencies_of(student_id) == Seq::<CompetenceID>::empty(),
{
    let list = ledger.competencies_of(student_id);
    if list.len() > 0 {
        assert(competence_recorded(
            ledger.staff_add_competence_map,
            ledger.auto_add_competence_map,
            student_id,
            list[0],
        ));
    }
    assert(list =~= Seq::<CompetenceID>::empty());
}

/// In a consistent ledger a student of whom no approval is stored has no
/// activities.
pub proof fn lemma_no_approval_no_activity(ledger: LedgerView, student_id: StudentID)
    requires
        ledger.consistent(),
        forall|id: RecordId| #[trigger]
            ledger.attended_activity_map.contains_key(id)
                ==> ledger.attended_activity_map[id].student_id != student_id,
    ensures
        ledger.activities_of(student_id) == Seq::<ActivityID>::empty(),
{
    let list = ledger.activities_of(student_id);
    if list.len() > 0 {
        assert(activity_recorded(ledger.attended_activity_map, student_id, list[0]));
    }
    assert(list =~= Seq::<ActivityID>::empty());
}

/// In a consistent ledger a term in which no record of a kind is stored has
/// no records of that kind.
pub proof fn lemma_no_record_no_term_entry(ledger: LedgerView, kind: RecordKind, term: TermKey)
    requires
        ledger.consistent(),
        forall|id: RecordId| #[trigger]
            ledger.has_record(kind, id) ==> ledger.record_by_id(kind, id)->Some_0.semester()
                != term,
    ensures
        ledger.records_in_term(kind, term) == Seq::<RecordId>::empty(),
{
    let list = ledger.records_in_term(kind, term);
    if list.len() > 0 {
        let id = list[0];
        assert(ledger.has_record(kind, id));
    }
    assert(list =~= Seq::<RecordId>::empty());
}

/// In a consistent ledger the identifier of every stored record stands in the
/// index of the record's own term, there once, and in the index of no other
/// term of its kind.
pub proof fn lemma_record_in_one_term(
    ledger: LedgerView,
    kind: RecordKind,
    id: RecordId,
    term: TermKey,
)
    requires
        ledger.consistent(),
        ledger.has_record(kind, id),
    ensures
        ledger.records_in_term(kind, term).contains(id) <==> term == ledger.record_by_id(
            kind,
            id,
        )->Some_0.semester(),
        ledger.records_in_term(kind, term).no_duplicates(),
{
    let list = ledger.records_in_term(kind, term);
    if list.contains(id) {
        let i = list.index_of(id);
        assert(list[i] == id);
    }
}

/// The same grant made twice, each time with an identifier that is free when
/// it is made: the two identifiers differ, both records are stored, the
/// student's competences end with the competence twice, and the term's index
/// ends with the two identifiers.
pub proof fn lemma_repeated_grant_is_kept_twice(
    ledger: LedgerView,
    first_seed: Seq<u8>,
    second_seed: Seq<u8>,
    by: AccountId,
    student_id: StudentID,
    competence_id: CompetenceID,
    term: TermKey,
)
    requires
        ledger.admits(staff_grant(by, student_id, competence_id, term, first_seed)),
        ledger.with_record(staff_grant(by, student_id, competence_id, term, first_seed)).admits(
            staff_grant(by, student_id, competence_id, term, second_seed),
        ),
    ensures
        ({
            let first = staff_grant(by, student_id, competence_id, term, first_seed);
            let second = staff_grant(by, student_id, competence_id, term, second_seed);
            let after = ledger.with_record(first).with_record(second);
            &&& first.id() != second.id()
            &&& after.record_by_id(RecordKind::StaffCompetence, first.id()) == Some(first)
            &&& after.record_by_id(RecordKind::StaffCompetence, second.id()) == Some(second)
            &&& after.competencies_of(student_id) == ledger.competencies_of(student_id).push(
                competence_id,
            ).push(competence_id)
            &&& after.records_in_term(RecordKind::StaffCompetence, term) == ledger.records_in_term(
                RecordKind::StaffCompetence,
                term,
            ).push(first.id()).push(second.id())
        }),
{
}

/// Two records whose storing touches no index entry in common: they belong to
/// different students, and where they are of one kind they differ in term
/// and in identifier.
pub open spec fn independent(a: Record, b: Record) -> bool {
    &&& a.student_id() != b.student_id()
    &&& a.kind() == b.kind() ==> a.semester() != b.semester() && a.id() != b.id()
}

/// Two independent records can be stored in either order: the state after
/// both is the same, and whether the ledger admits the second after the first
/// does not depend on which came first.
pub proof fn lemma_independent_records_commute(ledger: LedgerView, a: Record, b: Record)
    requires
        independent(a, b),
    ensures
        ledger.with_record(a).with_record(b) == ledger.with_record(b).with_record(a),
        ledger.admits(a) && ledger.with_record(a).admits(b) <==> ledger.admits(b)
            && ledger.with_record(b).admits(a),
{
    let ab = ledger.with_record(a).with_record(b);
    let ba = ledger.with_record(b).with_record(a);
    assert(ab.staff_add_competence_map =~= ba.staff_add_competence_map);
    assert(ab.attended_activity_map =~= ba.attended_activity_map);
    assert(ab.auto_add_competence_map =~= ba.auto_add_competence_map);
    assert(ab.collected_competencies =~= ba.collected_competencies);
    assert(ab.attended_activities =~= ba.attended_activities);
    assert(ab.staff_add_competencies_semester =~= ba.staff_add_competencies_semester);
    assert(ab.attended_activities_semester =~= ba.attended_activities_semester);
    assert(ab.auto_add_competencies_semester =~= ba.auto_add_competencies_semester);
}

/// Two operations on students that differ, which are not of one kind and one
/// term, end in the same state in whichever order they are carried out, and
/// succeed in one order where they succeed in the other.
pub proof fn lemma_disjoint_operations_commute(ledger: LedgerView, a: Record, b: Record)
    requires
        a.student_id() != b.student_id(),
        !(a.kind() == b.kind() && a.semester() == b.semester()),
        ledger.admits(a),
        ledger.with_record(a).admits(b),
    ensures
        ledger.admits(b),
        ledger.with_record(b).admits(a),
        ledger.with_record(a).with_record(b) == ledger.with_record(b).with_record(a),
{
    lemma_independent_records_commute(ledger, a, b);
}

/// The state after the records of a sequence were stored one after the other.
pub open spec fn run(ledger: LedgerView, records: Seq<Record>) -> LedgerView
    decreases records.len(),
{
    if records.len() == 0 {
        ledger
    } else {
        run(ledger, records.drop_last()).with_record(records.last())
    }
}

/// Any two records of the sequence are independent.
pub open spec fn pairwise_independent(records: Seq<Record>) -> bool {
    forall|i: int, j: int|
        0 <= i < j < records.len() ==> independent(#[trigger] records[i], #[trigger] records[j])
}

proof fn lemma_independent_symmetric(a: Record, b: Record)
    ensures
        independent(a, b) == independent(b, a),
{
}

proof fn lemma_last_can_be_any(ledger: LedgerView, records: Seq<Record>, i: int)
    requires
        pairwise_independent(records),
        0 <= i < records.len(),
    ensures
        run(ledger, records) == run(ledger, records.remove(i)).with_record(records[i]),
        pairwise_independent(records.remove(i)),
    decreases records.len(),
{
    let rest = records.remove(i);
    assert forall|x: int, y: int| 0 <= x < y < rest.len() implies independent(
        #[trigger] rest[x],
        #[trigger] rest[y],
    ) by {
        let x0 = if x < i { x } else { x + 1 };
        let y0 = if y < i { y } else { y + 1 };
        assert(rest[x] == records[x0]);
        assert(rest[y] == records[y0]);
    }
    let n = records.len() - 1;
    if i == n {
        assert(rest =~= records.drop_last());
    } else {
        let front = records.drop_last();
        let last = records.last();
        assert forall|x: int, y: int| 0 <= x < y < front.len() implies independent(
            #[trigger] front[x],
            #[trigger] front[y],
        ) by {
            assert(front[x] == records[x]);
            assert(front[y] == records[y]);
        }
        lemma_last_can_be_any(ledger, front, i);
        assert(front[i] == records[i]);
        assert(independent(records[i], records[n]));
        lemma_independent_records_commute(run(ledger, front.remove(i)), records[i], last);
        assert(rest.drop_last() =~= front.remove(i));
        assert(rest.last() == last);
    }
}

/// Whether the ledger takes the records of a sequence one after the other:
/// each is admitted by the state that the ones before it left.
pub open spec fn accepts(ledger: LedgerView, records: Seq<Record>) -> bool
    decreases records.len(),
{
    if records.len() == 0 {
        true
    } else {
        accepts(ledger, records.drop_last()) && run(ledger, records.drop_last()).admits(
            records.last(),
        )
    }
}

spec fn among(records: Seq<Record>, kind: RecordKind, id: RecordId) -> bool {
    exists|j: int|
        0 <= j < records.len() && (#[trigger] records[j]).kind() == kind && records[j].id() == id
}

proof fn lemma_run_holds_what_was_stored(
    ledger: LedgerView,
    records: Seq<Record>,
    kind: RecordKind,
    id: RecordId,
)
    ensures
        run(ledger, records).has_record(kind, id) <==> ledger.has_record(kind, id) || among(
            records,
            kind,
            id,
        ),
    decreases records.len(),
{
    if records.len() > 0 {
        let front = records.drop_last();
        let last = records.last();
        lemma_run_holds_what_was_stored(ledger, front, kind, id);
        if among(front, kind, id) {
            let j = choose|j: int|
                0 <= j < front.len() && (#[trigger] front[j]).kind() == kind && front[j].id() == id;
            assert(records[j] == front[j]);
        }
        if last.kind() == kind && last.id() == id {
            assert(records[records.len() - 1] == last);
        }
        if among(records, kind, id) {
            let j = choose|j: int|
                0 <= j < records.len() && (#[trigger] records[j]).kind() == kind && records[j].id()
                    == id;
            if j < front.len() {
                assert(front[j] == records[j]);
            }
        }
    }
}

proof fn lemma_accepts_each(ledger: LedgerView, records: Seq<Record>)
    requires
        pairwise_independent(records),
    ensures
        accepts(ledger, records) <==> forall|j: int|
            0 <= j < records.len() ==> ledger.admits(#[trigger] records[j]),
    decreases records.len(),
{
    if records.len() > 0 {
        let front = records.drop_last();
        let last = records.last();
        let n = records.len() - 1;
        assert forall|x: int, y: int| 0 <= x < y < front.len() implies independent(
            #[trigger] front[x],
            #[trigger] front[y],
        ) by {
            assert(front[x] == records[x]);
            assert(front[y] == records[y]);
        }
        lemma_accepts_each(ledger, front);
        lemma_run_holds_what_was_stored(ledger, front, last.kind(), last.id());
        if among(front, last.kind(), last.id()) {
            let j = choose|j: int|
                0 <= j < front.len() && (#[trigger] front[j]).kind() == last.kind() && front[j].id()
                    == last.id();
            assert(front[j] == records[j]);
            assert(independent(records[j], records[n]));
        }
        assert(run(ledger, front).admits(last) <==> ledger.admits(records[n]));
        assert forall|j: int| 0 <= j < front.len() implies front[j] == records[j] by {}
        if accepts(ledger, records) {
            assert forall|j: int| 0 <= j < records.len() implies ledger.admits(
                #[trigger] records[j],
            ) by {
                if j < n {
                    assert(ledger.admits(front[j]));
                }
            }
        }
        if forall|j: int| 0 <= j < records.len() ==> ledger.admits(#[trigger] records[j]) {
            assert forall|j: int| 0 <= j < front.len() implies ledger.admits(
                #[trigger] front[j],
            ) by {
                assert(ledger.admits(records[j]));
            }
        }
    }
}

proof fn lemma_reordered_is_independent(one_order: Seq<Record>, other_order: Seq<Record>)
    requires
        pairwise_independent(one_order),
        one_order.to_multiset() == other_order.to_multiset(),
    ensures
        pairwise_independent(other_order),
    decreases other_order.len(),
{
    to_multiset_len(one_order);
    to_multiset_len(other_order);
    if other_order.len() > 0 {
        let last = other_order.last();
        let n = other_order.len() - 1;
        let front = other_order.drop_last();
        assert(other_order[n] == last);
        to_multiset_contains(other_order, last);
        to_multiset_contains(one_order, last);
        let i = one_order.index_of(last);
        assert(one_order[i] == last);
        let rest = one_order.remove(i);
        to_multiset_remove(one_order, i);
        to_multiset_remove(other_order, n);
        assert(other_order.remove(n) =~= front);
        lemma_last_can_be_any(LedgerView::empty(), one_order, i);
        lemma_reordered_is_independent(rest, front);
        assert forall|x: int, y: int| 0 <= x < y < other_order.len() implies independent(
            #[trigger] other_order[x],
            #[trigger] other_order[y],
        ) by {
            if y < n {
                assert(front[x] == other_order[x]);
                assert(front[y] == other_order[y]);
            } else {
                let r = other_order[x];
                assert(front[x] == r);
                assert(front.contains(r));
                to_multiset_contains(front, r);
                to_multiset_contains(rest, r);
                let k = rest.index_of(r);
                assert(rest[k] == r);
                let k0 = if k < i { k } else { k + 1 };
                assert(one_order[k0] == r);
                if k0 < i {
                    assert(independent(one_order[k0], one_order[i]));
                } else {
                    assert(independent(one_order[i], one_order[k0]));
                }
                lemma_independent_symmetric(r, last);
            }
        }
    }
}

/// Independent operations end in the same state in whatever order they are
/// carried out, and the ledger takes them in one order where it takes them in
/// another.
pub proof fn lemma_order_is_immaterial(
    ledger: LedgerView,
    one_order: Seq<Record>,
    other_order: Seq<Record>,
)
    requires
        pairwise_independent(one_order),
        one_order.to_multiset() == other_order.to_multiset(),
    ensures
        run(ledger, one_order) == run(ledger, other_order),
        accepts(ledger, one_order) == accepts(ledger, other_order),
{
    lemma_same_state_in_any_order(ledger, one_order, other_order);
    lemma_reordered_is_independent(one_order, other_order);
    lemma_accepts_each(ledger, one_order);
    lemma_accepts_each(ledger, other_order);
    if forall|j: int| 0 <= j < one_order.len() ==> ledger.admits(#[trigger] one_order[j]) {
        assert forall|j: int| 0 <= j < other_order.len() implies ledger.admits(
            #[trigger] other_order[j],
        ) by {
            let r = other_order[j];
            assert(other_order.contains(r));
            to_multiset_contains(other_order, r);
            to_multiset_contains(one_order, r);
            let k = one_order.index_of(r);
            assert(one_order[k] == r);
        }
    }
    if forall|j: int| 0 <= j < other_order.len() ==> ledger.admits(#[trigger] other_order[j]) {
        assert forall|j: int| 0 <= j < one_order.len() implies ledger.admits(
            #[trigger] one_order[j],
        ) by {
            let r = one_order[j];
            assert(one_order.contains(r));
            to_multiset_contains(one_order, r);
            to_multiset_contains(other_order, r);
            let k = other_order.index_of(r);
            assert(other_order[k] == r);
        }
    }
}

proof fn lemma_same_state_in_any_order(
    ledger: LedgerView,
    one_order: Seq<Record>,
    other_order: Seq<Record>,
)
    requires
        pairwise_independent(one_order),
        one_order.to_multiset() == other_order.to_multiset(),
    ensures
        run(ledger, one_order) == run(ledger, other_order),
    decreases other_order.len(),
{
    to_multiset_len(one_order);
    to_multiset_len(other_order);
    if other_order.len() == 0 {
    } else {
        let last = other_order.last();
        let n = other_order.len() - 1;
        assert(other_order[n] == last);
        to_multiset_contains(other_order, last);
        to_multiset_contains(one_order, last);
        let i = one_order.index_of(last);
        assert(one_order[i] == last);
        to_multiset_remove(one_order, i);
        to_multiset_remove(other_order, n);
        assert(other_order.remove(n) =~= other_order.drop_last());
        lemma_last_can_be_any(ledger, one_order, i);
        lemma_same_state_in_any_order(ledger, one_order.remove(i), other_order.drop_last());
    }
}

/// Two records stored in either order, whatever their students and terms: the
/// stores end up the same, and each index entry holds the same values the
/// same number of times; only the order within an entry can differ.
pub proof fn lemma_order_shows_in_index_order_alone(ledger: LedgerView, a: Record, b: Record)
    requires
        a.kind() == b.kind() ==> a.id() != b.id(),
    ensures
        ({
            let ab = ledger.with_record(a).with_record(b);
            let ba = ledger.with_record(b).with_record(a);
            &&& ab.staff_add_competence_map == ba.staff_add_competence_map
            &&& ab.attended_activity_map == ba.attended_activity_map
            &&& ab.auto_add_competence_map == ba.auto_add_competence_map
            &&& forall|s: StudentID| #[trigger]
                ab.competencies_of(s).to_multiset() == ba.competencies_of(s).to_multiset()
            &&& forall|s: StudentID| #[trigger]
                ab.activities_of(s).to_multiset() == ba.activities_of(s).to_multiset()
            &&& forall|kind: RecordKind, term: TermKey| #[trigger]
                ab.records_in_term(kind, term).to_multiset() == ba.records_in_term(
                    kind,
                    term,
                ).to_multiset()
        }),
{
    let ab = ledger.with_record(a).with_record(b);
    let ba = ledger.with_record(b).with_record(a);
    assert(ab.staff_add_competence_map =~= ba.staff_add_competence_map);
    assert(ab.attended_activity_map =~= ba.attended_activity_map);
    assert(ab.auto_add_competence_map =~= ba.auto_add_competence_map);
    assert forall|s: StudentID| #[trigger]
        ab.competencies_of(s).to_multiset() == ba.competencies_of(s).to_multiset() by {
        lemma_appends_permute(
            ledger.collected_competencies,
            ab.collected_competencies,
            ba.collected_competencies,
            s,
        );
    }
    assert forall|s: StudentID| #[trigger]
        ab.activities_of(s).to_multiset() == ba.activities_of(s).to_multiset() by {
        lemma_appends_permute(
            ledger.attended_activities,
            ab.attended_activities,
            ba.attended_activities,
            s,
        );
    }
    assert forall|kind: RecordKind, term: TermKey| #[trigger]
        ab.records_in_term(kind, term).to_multiset() == ba.records_in_term(
            kind,
            term,
        ).to_multiset() by {
        match kind {
            RecordKind::StaffCompetence => lemma_appends_permute(
                ledger.staff_add_competencies_semester,
                ab.staff_add_competencies_semester,
                ba.staff_add_competencies_semester,
                term,
            ),
            RecordKind::Activity => lemma_appends_permute(
                ledger.attended_activities_semester,
                ab.attended_activities_semester,
                ba.attended_activities_semester,
                term,
            ),
            RecordKind::AutoCompetence => lemma_appends_permute(
                ledger.auto_add_competencies_semester,
                ab.auto_add_competencies_semester,
                ba.auto_add_competencies_semester,
                term,
            ),
        }
    }
}

/// Two indices that grew out of one by the same appends, in whatever order,
/// hold under each key the same values the same number of times.
proof fn lemma_appends_permute<K, V>(
    start: Map<K, Seq<V>>,
    one: Map<K, Seq<V>>,
    other: Map<K, Seq<V>>,
    key: K,
)
    requires
        one == other || exists|k1: K, v1: V, k2: K, v2: V|
            one == #[trigger] appended(appended(start, k1, v1), k2, v2) && other == appended(
                appended(start, k2, v2),
                k1,
                v1,
            ),
    ensures
        entries_of(one, key).to_multiset() == entries_of(other, key).to_multiset(),
{
    if one != other {
        let (k1, v1, k2, v2) = choose|k1: K, v1: V, k2: K, v2: V|
            one == #[trigger] appended(appended(start, k1, v1), k2, v2) && other == appended(
                appended(start, k2, v2),
                k1,
                v1,
            );
        let base = entries_of(start, key);
        to_multiset_build(base, v1);
        to_multiset_build(base, v2);
        to_multiset_build(base.push(v1), v2);
        to_multiset_build(base.push(v2), v1);
        assert(base.to_multiset().insert(v1).insert(v2) =~= base.to_multiset().insert(v2).insert(
            v1,
        ));
    }
}

} // verus!
