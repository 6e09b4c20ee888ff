use sitcom::term::normalize;
use sitcom::types::Error;

#[test]
fn normalize_folds_semester_and_year() {
    assert_eq!(normalize(1, 2019), Ok(12019));
    assert_eq!(normalize(2, 2020), Ok(22020));
}

#[test]
fn normalize_accepts_the_bounds_of_the_year() {
    assert_eq!(normalize(1, 2000), Ok(12000));
    assert_eq!(normalize(1, 3000), Ok(13000));
    assert_eq!(normalize(2, 2000), Ok(22000));
    assert_eq!(normalize(2, 3000), Ok(23000));
}

#[test]
fn normalize_refuses_other_semesters() {
    assert_eq!(normalize(0, 2019), Err(Error::InvalidSemester));
    assert_eq!(normalize(3, 2019), Err(Error::InvalidSemester));
    assert_eq!(normalize(u16::MAX, 2019), Err(Error::InvalidSemester));
}

#[test]
fn normalize_refuses_years_out_of_range() {
    assert_eq!(normalize(1, 1999), Err(Error::InvalidYear));
    assert_eq!(normalize(2, 3001), Err(Error::InvalidYear));
    assert_eq!(normalize(1, 0), Err(Error::InvalidYear));
    assert_eq!(normalize(2, u16::MAX), Err(Error::InvalidYear));
}

#[test]
fn normalize_judges_the_semester_first() {
    assert_eq!(normalize(0, 1999), Err(Error::InvalidSemester));
    assert_eq!(normalize(7, 40000), Err(Error::InvalidSemester));
}

#[test]
fn normalize_is_injective_on_valid_input() {
    let mut seen = std::collections::HashSet::new();
    for semester in 1..=2u16 {
        for year in 2000..=3000u16 {
            let key = normalize(semester, year).unwrap();
            assert_eq!(u32::from(key), u32::from(semester) * 10000 + u32::from(year));
            assert!(seen.insert(key));
        }
    }
    assert_eq!(seen.len(), 2002);
}

#[test]
fn error_messages() {
    assert_eq!(Error::InvalidSemester.message(), "Semester should be only 1 or 2");
    assert_eq!(Error::InvalidYear.message(), "Improper academic year");
    assert_eq!(Error::Unauthorized.message(), "bad origin: expected to be a signed origin");
    assert_eq!(Error::DuplicateIdentifier.message(), "Record identifier already exists");
}
