use vstd::prelude::*;
use crate::types::{Error, TermKey};

verus! {

pub open spec fn valid_semester(semester: u16) -> bool {
    semester == 1 || semester == 2
}

pub open spec fn valid_year(year: u16) -> bool {
    2000 <= year <= 3000
}

/// The term key of a semester and a year: the semester digit followed by the
/// four digits of the year.
pub open spec fn term_key(semester: u16, year: u16) -> int {
    semester * 10000 + year
}

/// What `normalize` returns: the semester is judged first, then the year.
pub open spec fn normalized(semester: u16, year: u16) -> Result<TermKey, Error> {
    if !valid_semester(semester) {
        Err(Error::InvalidSemester)
    } else if !valid_year(year) {
        Err(Error::InvalidYear)
    } else {
        Ok(term_key(semester, year) as u16)
    }
}

/// Validates a semester and a year and folds them into one term key.
pub fn normalize(semester: u16, year: u16) -> (res: Result<TermKey, Error>)
    ensures
        res == normalized(semester, year),
        res is Ok <==> valid_semester(semester) && valid_year(year),
        res is Ok ==> res->Ok_0 == semester * 10000 + year,
        res == Err::<TermKey, Error>(Error::InvalidSemester) <==> !valid_semester(semester),
        res == Err::<TermKey, Error>(Error::InvalidYear) <==> valid_semester(semester)
            && !valid_year(year),
{
    if !(semester == 1 || semester == 2) {
        return Err(Error::InvalidSemester);
    }
    if !(year >= 2000 && year <= 3000) {
        return Err(Error::InvalidYear);
    }
    Ok(semester * 10000 + year)
}

/// Two valid pairs of semester and year with the same term key are the same pair.
pub proof fn lemma_term_key_injective(s1: u16, y1: u16, s2: u16, y2: u16)
    requires
        valid_semester(s1),
        valid_year(y1),
        valid_semester(s2),
        valid_year(y2),
        term_key(s1, y1) == term_key(s2, y2),
    ensures
        s1 == s2,
        y1 == y2,
{
}

/// On valid input `normalize` is injective: equal results come from equal inputs.
pub proof fn lemma_normalized_injective(s1: u16, y1: u16, s2: u16, y2: u16)
    requires
        normalized(s1, y1) is Ok,
        normalized(s1, y1) == normalized(s2, y2),
    ensures
        s1 == s2,
        y1 == y2,
{
}

} // verus!
