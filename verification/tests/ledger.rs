use sitcom::ident::{derive_activity_id, derive_auto_id, derive_staff_id};
use sitcom::ledger::Ledger;
use sitcom::types::{
    AttendedActivity, AutoAddCompetence, Error, Event, Record, RecordId, RecordKind,
    StaffAddCompetence,
};

const KINDS: [RecordKind; 3] =
    [RecordKind::StaffCompetence, RecordKind::Activity, RecordKind::AutoCompetence];

fn seed(n: u8) -> [u8; 32] {
    [n; 32]
}

/// What the read accessors show of a ledger, for the students, terms and
/// identifiers that the tests use.
fn snapshot(ledger: &Ledger, ids: &[RecordId]) -> Vec<String> {
    let mut lines = Vec::new();
    for student in [1u64, 2, 3, 42] {
        lines.push(format!("{:?}", ledger.competencies_of(student)));
        lines.push(format!("{:?}", ledger.activities_of(student)));
    }
    for kind in KINDS {
        lines.push(format!("{:?}", ledger.record_count(kind)));
        for term in [12019u16, 22019, 22020] {
            lines.push(format!("{:?}", ledger.records_in_term(kind, term)));
        }
        for id in ids {
            lines.push(format!("{:?}", ledger.record_by_id(kind, id)));
        }
    }
    lines
}

#[test]
fn new_ledger_is_empty() {
    let ledger = Ledger::new();
    assert_eq!(ledger.competencies_of(42), Vec::<u16>::new());
    assert_eq!(ledger.activities_of(42), Vec::<u32>::new());
    for kind in KINDS {
        assert_eq!(ledger.records_in_term(kind, 12019), Vec::<RecordId>::new());
        assert_eq!(ledger.record_by_id(kind, &[0u8; 32]), None);
        assert_eq!(ledger.record_count(kind), 0);
    }
}

#[test]
fn accessors_are_empty_for_strangers() {
    let mut ledger = Ledger::new();
    let mut sink = Vec::new();
    ledger.staff_add_competence(Some(1), 1, 30001, 1, 2019, &seed(1), &mut sink).unwrap();
    ledger.approve_activity(Some(1), 1, 4000000001, 1, 2019, &seed(2), &mut sink).unwrap();
    assert_eq!(ledger.competencies_of(2), Vec::<u16>::new());
    assert_eq!(ledger.activities_of(2), Vec::<u32>::new());
    for kind in KINDS {
        assert_eq!(ledger.records_in_term(kind, 22019), Vec::<RecordId>::new());
        assert_eq!(ledger.record_by_id(kind, &[9u8; 32]), None);
    }
    assert_eq!(ledger.records_in_term(RecordKind::AutoCompetence, 12019), Vec::<RecordId>::new());
}

#[test]
fn staff_grant_is_recorded_and_indexed() {
    let mut ledger = Ledger::new();
    let mut sink = Vec::new();
    let id = derive_staff_id(&seed(1), 9, 1001, 30001, 12019);
    let res = ledger.staff_add_competence(Some(9), 1001, 30001, 1, 2019, &seed(1), &mut sink);
    assert_eq!(res, Ok(()));
    assert!(ledger.competencies_of(1001).contains(&30001));
    assert_eq!(ledger.competencies_of(1001), vec![30001]);
    assert!(ledger.records_in_term(RecordKind::StaffCompetence, 12019).contains(&id));
    assert_eq!(ledger.records_in_term(RecordKind::StaffCompetence, 12019), vec![id]);
    assert_eq!(ledger.record_count(RecordKind::StaffCompetence), 1);
    assert_eq!(ledger.record_count(RecordKind::Activity), 0);
    assert_eq!(ledger.record_count(RecordKind::AutoCompetence), 0);
    assert_eq!(
        ledger.record_by_id(RecordKind::StaffCompetence, &id),
        Some(Record::StaffCompetence(StaffAddCompetence {
            id,
            student_id: 1001,
            competence_id: 30001,
            by: 9,
            semester: 12019,
        }))
    );
    assert_eq!(ledger.record_by_id(RecordKind::AutoCompetence, &id), None);
    assert_eq!(ledger.record_by_id(RecordKind::Activity, &id), None);
    assert_eq!(sink, vec![Event::CompetenceGrantedByStaff(1001, 30001, 9)]);
}

#[test]
fn approve_activity_scenario() {
    let mut ledger = Ledger::new();
    let mut sink = Vec::new();
    let res = ledger.approve_activity(Some(7), 42, 4000000001, 2, 2020, &[0u8; 32], &mut sink);
    assert_eq!(res, Ok(()));
    let id: RecordId = [
        151, 125, 130, 64, 127, 80, 164, 1, 194, 30, 203, 243, 109, 147, 124, 51, 218, 1, 36, 254,
        75, 134, 224, 100, 24, 219, 69, 63, 251, 227, 38, 195,
    ];
    assert_eq!(ledger.activities_of(42), vec![4000000001]);
    assert_eq!(ledger.records_in_term(RecordKind::Activity, 22020), vec![id]);
    assert_eq!(sink, vec![Event::ActivityApproved(42, 4000000001, 7)]);
    assert_eq!(
        ledger.record_by_id(RecordKind::Activity, &id),
        Some(Record::Activity(AttendedActivity {
            id,
            student_id: 42,
            activity_id: 4000000001,
            approver: 7,
            semester: 22020,
        }))
    );
    assert_eq!(ledger.record_count(RecordKind::Activity), 1);
    assert_eq!(ledger.competencies_of(42), Vec::<u16>::new());
}

#[test]
fn auto_grant_is_recorded_and_indexed() {
    let mut ledger = Ledger::new();
    let mut sink = Vec::new();
    let id = derive_auto_id(&seed(3), 5, 30002, 12019);
    assert_eq!(ledger.auto_add_competence(5, 30002, 12019, &seed(3), &mut sink), Ok(()));
    assert_eq!(ledger.competencies_of(5), vec![30002]);
    assert_eq!(ledger.records_in_term(RecordKind::AutoCompetence, 12019), vec![id]);
    assert_eq!(ledger.records_in_term(RecordKind::StaffCompetence, 12019), Vec::<RecordId>::new());
    assert_eq!(
        ledger.record_by_id(RecordKind::AutoCompetence, &id),
        Some(Record::AutoCompetence(AutoAddCompetence {
            id,
            student_id: 5,
            competence_id: 30002,
            semester: 12019,
        }))
    );
    assert_eq!(sink, vec![Event::CompetenceAutoGranted(5, 30002)]);
}

#[test]
fn auto_grant_takes_the_term_as_given() {
    let mut ledger = Ledger::new();
    let mut sink = Vec::new();
    assert_eq!(ledger.auto_add_competence(5, 30002, 7, &seed(3), &mut sink), Ok(()));
    assert_eq!(ledger.records_in_term(RecordKind::AutoCompetence, 7).len(), 1);
}

#[test]
fn staff_and_auto_grants_share_the_index_by_student() {
    let mut ledger = Ledger::new();
    let mut sink = Vec::new();
    ledger.staff_add_competence(Some(1), 5, 30001, 1, 2019, &seed(1), &mut sink).unwrap();
    ledger.auto_add_competence(5, 30002, 12019, &seed(2), &mut sink).unwrap();
    ledger.staff_add_competence(Some(1), 5, 30003, 2, 2019, &seed(3), &mut sink).unwrap();
    assert_eq!(ledger.competencies_of(5), vec![30001, 30002, 30003]);
    assert_eq!(ledger.records_in_term(RecordKind::StaffCompetence, 12019).len(), 1);
    assert_eq!(ledger.records_in_term(RecordKind::StaffCompetence, 22019).len(), 1);
    assert_eq!(ledger.records_in_term(RecordKind::AutoCompetence, 12019).len(), 1);
    assert_eq!(
        sink,
        vec![
            Event::CompetenceGrantedByStaff(5, 30001, 1),
            Event::CompetenceAutoGranted(5, 30002),
            Event::CompetenceGrantedByStaff(5, 30003, 1),
        ]
    );
}

#[test]
fn invalid_semester_changes_nothing() {
    let mut ledger = Ledger::new();
    let mut sink = Vec::new();
    ledger.staff_add_competence(Some(1), 1, 30001, 1, 2019, &seed(1), &mut sink).unwrap();
    let ids = [derive_staff_id(&seed(1), 1, 1, 30001, 12019)];
    let before = snapshot(&ledger, &ids);
    assert_eq!(
        ledger.staff_add_competence(Some(1), 1, 30001, 3, 2019, &seed(2), &mut sink),
        Err(Error::InvalidSemester)
    );
    assert_eq!(
        ledger.approve_activity(Some(1), 1, 4000000001, 0, 2019, &seed(2), &mut sink),
        Err(Error::InvalidSemester)
    );
    assert_eq!(snapshot(&ledger, &ids), before);
    assert_eq!(sink.len(), 1);
}

#[test]
fn invalid_year_changes_nothing() {
    let mut ledger = Ledger::new();
    let mut sink = Vec::new();
    ledger.approve_activity(Some(1), 1, 4000000001, 1, 2019, &seed(1), &mut sink).unwrap();
    let ids = [derive_activity_id(&seed(1), 1, 1, 4000000001, 12019)];
    let before = snapshot(&ledger, &ids);
    assert_eq!(
        ledger.staff_add_competence(Some(1), 1, 30001, 1, 1999, &seed(2), &mut sink),
        Err(Error::InvalidYear)
    );
    assert_eq!(
        ledger.approve_activity(Some(1), 1, 4000000001, 2, 3001, &seed(2), &mut sink),
        Err(Error::InvalidYear)
    );
    assert_eq!(snapshot(&ledger, &ids), before);
    assert_eq!(sink.len(), 1);
}

#[test]
fn unresolved_caller_is_refused_first() {
    let mut ledger = Ledger::new();
    let mut sink = Vec::new();
    let before = snapshot(&ledger, &[]);
    assert_eq!(
        ledger.staff_add_competence(None, 1, 30001, 1, 2019, &seed(1), &mut sink),
        Err(Error::Unauthorized)
    );
    assert_eq!(
        ledger.approve_activity(None, 1, 4000000001, 9, 1, &seed(1), &mut sink),
        Err(Error::Unauthorized)
    );
    assert_eq!(snapshot(&ledger, &[]), before);
    assert!(sink.is_empty());
}

#[test]
fn taken_identifier_is_refused() {
    let mut ledger = Ledger::new();
    let mut sink = Vec::new();
    ledger.staff_add_competence(Some(1), 1, 30001, 1, 2019, &seed(1), &mut sink).unwrap();
    ledger.approve_activity(Some(1), 1, 4000000001, 1, 2019, &seed(1), &mut sink).unwrap();
    ledger.auto_add_competence(1, 30001, 12019, &seed(1), &mut sink).unwrap();
    let ids = [
        derive_staff_id(&seed(1), 1, 1, 30001, 12019),
        derive_activity_id(&seed(1), 1, 1, 4000000001, 12019),
        derive_auto_id(&seed(1), 1, 30001, 12019),
    ];
    let before = snapshot(&ledger, &ids);
    assert_eq!(
        ledger.staff_add_competence(Some(1), 1, 30001, 1, 2019, &seed(1), &mut sink),
        Err(Error::DuplicateIdentifier)
    );
    assert_eq!(
        ledger.approve_activity(Some(1), 1, 4000000001, 1, 2019, &seed(1), &mut sink),
        Err(Error::DuplicateIdentifier)
    );
    assert_eq!(
        ledger.auto_add_competence(1, 30001, 12019, &seed(1), &mut sink),
        Err(Error::DuplicateIdentifier)
    );
    assert_eq!(snapshot(&ledger, &ids), before);
    assert_eq!(sink.len(), 3);
}

#[test]
fn same_grant_twice_is_kept_twice() {
    let mut ledger = Ledger::new();
    let mut sink = Vec::new();
    ledger.staff_add_competence(Some(9), 1001, 30001, 1, 2019, &seed(1), &mut sink).unwrap();
    ledger.staff_add_competence(Some(9), 1001, 30001, 1, 2019, &seed(2), &mut sink).unwrap();
    let first = derive_staff_id(&seed(1), 9, 1001, 30001, 12019);
    let second = derive_staff_id(&seed(2), 9, 1001, 30001, 12019);
    assert_ne!(first, second);
    assert_eq!(ledger.competencies_of(1001), vec![30001, 30001]);
    assert_eq!(ledger.records_in_term(RecordKind::StaffCompetence, 12019), vec![first, second]);
    assert_eq!(ledger.record_count(RecordKind::StaffCompetence), 2);
    assert!(ledger.record_by_id(RecordKind::StaffCompetence, &first).is_some());
    assert!(ledger.record_by_id(RecordKind::StaffCompetence, &second).is_some());
    assert_eq!(sink.len(), 2);
}

#[test]
fn operations_on_different_students_and_terms_commute() {
    let mut one = Ledger::new();
    let mut other = Ledger::new();
    let mut sink = Vec::new();
    one.staff_add_competence(Some(1), 1, 30001, 1, 2019, &seed(1), &mut sink).unwrap();
    one.approve_activity(Some(1), 2, 4000000001, 1, 2019, &seed(2), &mut sink).unwrap();
    one.auto_add_competence(3, 30002, 22019, &seed(3), &mut sink).unwrap();
    one.staff_add_competence(Some(2), 42, 30003, 2, 2020, &seed(4), &mut sink).unwrap();

    other.staff_add_competence(Some(2), 42, 30003, 2, 2020, &seed(4), &mut sink).unwrap();
    other.auto_add_competence(3, 30002, 22019, &seed(3), &mut sink).unwrap();
    other.approve_activity(Some(1), 2, 4000000001, 1, 2019, &seed(2), &mut sink).unwrap();
    other.staff_add_competence(Some(1), 1, 30001, 1, 2019, &seed(1), &mut sink).unwrap();

    let ids = [
        derive_staff_id(&seed(1), 1, 1, 30001, 12019),
        derive_activity_id(&seed(2), 1, 2, 4000000001, 12019),
        derive_auto_id(&seed(3), 3, 30002, 22019),
        derive_staff_id(&seed(4), 2, 42, 30003, 22020),
    ];
    assert_eq!(snapshot(&one, &ids), snapshot(&other, &ids));
}

#[test]
fn operations_on_one_student_differ_in_order_alone() {
    let mut one = Ledger::new();
    let mut other = Ledger::new();
    let mut sink = Vec::new();
    one.staff_add_competence(Some(1), 1, 30001, 1, 2019, &seed(1), &mut sink).unwrap();
    one.staff_add_competence(Some(1), 1, 30002, 1, 2019, &seed(2), &mut sink).unwrap();
    other.staff_add_competence(Some(1), 1, 30002, 1, 2019, &seed(2), &mut sink).unwrap();
    other.staff_add_competence(Some(1), 1, 30001, 1, 2019, &seed(1), &mut sink).unwrap();

    assert_eq!(one.competencies_of(1), vec![30001, 30002]);
    assert_eq!(other.competencies_of(1), vec![30002, 30001]);
    let first = derive_staff_id(&seed(1), 1, 1, 30001, 12019);
    let second = derive_staff_id(&seed(2), 1, 1, 30002, 12019);
    assert_eq!(one.records_in_term(RecordKind::StaffCompetence, 12019), vec![first, second]);
    assert_eq!(other.records_in_term(RecordKind::StaffCompetence, 12019), vec![second, first]);
    for id in [first, second] {
        assert_eq!(
            one.record_by_id(RecordKind::StaffCompetence, &id),
            other.record_by_id(RecordKind::StaffCompetence, &id)
        );
    }
    assert_eq!(one.record_count(RecordKind::StaffCompetence), 2);
    assert_eq!(other.record_count(RecordKind::StaffCompetence), 2);
}

#[test]
fn store_record_takes_the_identifier_it_is_given() {
    let mut ledger = Ledger::new();
    let mut sink = Vec::new();
    let record = Record::Activity(AttendedActivity {
        id: [5u8; 32],
        student_id: 42,
        activity_id: 4000000007,
        approver: 3,
        semester: 12021,
    });
    assert_eq!(ledger.store_record(record, &mut sink), Ok(()));
    assert_eq!(ledger.record_by_id(RecordKind::Activity, &[5u8; 32]), Some(record));
    assert_eq!(ledger.activities_of(42), vec![4000000007]);
    assert_eq!(ledger.records_in_term(RecordKind::Activity, 12021), vec![[5u8; 32]]);
    assert_eq!(sink, vec![Event::ActivityApproved(42, 4000000007, 3)]);
    assert_eq!(ledger.store_record(record, &mut sink), Err(Error::DuplicateIdentifier));
    assert_eq!(ledger.activities_of(42), vec![4000000007]);
    assert_eq!(sink.len(), 1);
}

#[test]
fn one_identifier_can_serve_in_each_kind() {
    let mut ledger = Ledger::new();
    let mut sink = Vec::new();
    let id = [5u8; 32];
    let staff = Record::StaffCompetence(StaffAddCompetence {
        id,
        student_id: 1,
        competence_id: 30001,
        by: 2,
        semester: 12019,
    });
    let auto = Record::AutoCompetence(AutoAddCompetence {
        id,
        student_id: 1,
        competence_id: 30002,
        semester: 12019,
    });
    assert_eq!(ledger.store_record(staff, &mut sink), Ok(()));
    assert_eq!(ledger.store_record(auto, &mut sink), Ok(()));
    assert_eq!(ledger.record_by_id(RecordKind::StaffCompetence, &id), Some(staff));
    assert_eq!(ledger.record_by_id(RecordKind::AutoCompetence, &id), Some(auto));
    assert_eq!(ledger.record_by_id(RecordKind::Activity, &id), None);
    assert_eq!(ledger.competencies_of(1), vec![30001, 30002]);
}

#[test]
fn a_record_stands_in_the_index_of_its_own_term_alone() {
    let mut ledger = Ledger::new();
    let mut sink = Vec::new();
    ledger.staff_add_competence(Some(1), 1, 30001, 1, 2019, &seed(1), &mut sink).unwrap();
    ledger.staff_add_competence(Some(1), 2, 30001, 2, 2019, &seed(2), &mut sink).unwrap();
    let first = derive_staff_id(&seed(1), 1, 1, 30001, 12019);
    let second = derive_staff_id(&seed(2), 1, 2, 30001, 22019);
    assert_eq!(ledger.records_in_term(RecordKind::StaffCompetence, 12019), vec![first]);
    assert_eq!(ledger.records_in_term(RecordKind::StaffCompetence, 22019), vec![second]);
    assert_eq!(ledger.records_in_term(RecordKind::StaffCompetence, 12020), Vec::<RecordId>::new());
    assert_eq!(ledger.records_in_term(RecordKind::Activity, 12019), Vec::<RecordId>::new());
    assert_eq!(ledger.records_in_term(RecordKind::AutoCompetence, 12019), Vec::<RecordId>::new());
}

#[test]
fn storing_only_appends() {
    let mut ledger = Ledger::new();
    let mut sink = Vec::new();
    ledger.approve_activity(Some(1), 1, 4000000001, 1, 2019, &seed(1), &mut sink).unwrap();
    ledger.approve_activity(Some(1), 2, 4000000002, 1, 2019, &seed(2), &mut sink).unwrap();
    let first = derive_activity_id(&seed(1), 1, 1, 4000000001, 12019);
    let stored = ledger.record_by_id(RecordKind::Activity, &first);
    let listed = ledger.records_in_term(RecordKind::Activity, 12019);
    let of_other = ledger.activities_of(2);

    ledger.approve_activity(Some(3), 1, 4000000003, 1, 2019, &seed(3), &mut sink).unwrap();

    assert_eq!(ledger.record_by_id(RecordKind::Activity, &first), stored);
    assert_eq!(ledger.activities_of(1), vec![4000000001, 4000000003]);
    assert_eq!(ledger.activities_of(2), of_other);
    let now = ledger.records_in_term(RecordKind::Activity, 12019);
    assert_eq!(now.len(), listed.len() + 1);
    assert_eq!(now[..listed.len()], listed[..]);
    assert_eq!(now[listed.len()], derive_activity_id(&seed(3), 3, 1, 4000000003, 12019));
    assert_eq!(ledger.record_count(RecordKind::Activity), 3);
}

#[test]
fn many_records_are_all_found_again() {
    let mut ledger = Ledger::new();
    let mut sink = Vec::new();
    for n in 0..200u8 {
        let student = u64::from(n % 7);
        let code = 30000 + u16::from(n);
        let res = ledger.auto_add_competence(student, code, 12019, &seed(n), &mut sink);
        assert_eq!(res, Ok(()));
    }
    assert_eq!(ledger.record_count(RecordKind::AutoCompetence), 200);
    assert_eq!(ledger.records_in_term(RecordKind::AutoCompetence, 12019).len(), 200);
    for n in 0..200u8 {
        let id = derive_auto_id(&seed(n), u64::from(n % 7), 30000 + u16::from(n), 12019);
        let found = ledger.record_by_id(RecordKind::AutoCompetence, &id);
        assert_eq!(
            found,
            Some(Record::AutoCompetence(AutoAddCompetence {
                id,
                student_id: u64::from(n % 7),
                competence_id: 30000 + u16::from(n),
                semester: 12019,
            }))
        );
    }
    assert_eq!(ledger.competencies_of(0).len(), 29);
    assert_eq!(sink.len(), 200);
}
