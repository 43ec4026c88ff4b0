use crate::chars::char_subvec;
use crate::chars::lower_of;
use crate::chars::segments;
use crate::chars::sep_fields;
use crate::chars::str_eq;
use crate::chars::to_char_vec;
use crate::chars::to_lowercase;
use crate::chars::SepKind;
use crate::numerals::parse_u32;
use crate::numerals::parses_as_u32;
use crate::numerals::u32_of;
use vstd::prelude::*;
use vstd::string::StrSliceExecFns;
use vstd::string::StringExecFns;

verus! {

/// The twelve months a date token may name.
#[derive(Debug, Clone, Copy, PartialEq, Eq, Structural)]
pub enum Month {
    January,
    February,
    March,
    April,
    May,
    June,
    July,
    August,
    September,
    October,
    November,
    December,
}

/// Why a day-and-month token pair could not be read.
#[derive(Debug, PartialEq)]
pub enum DateError {
    EmptyDay,
    EmptyMonth,
    InvalidDay(String),
    InvalidMonth(String),
}

/// A calendar day and month. The day is kept exactly as the user supplied
/// it: no day-of-month range or leap-year rule is enforced.
#[derive(Debug, Clone, Copy, PartialEq, Eq, Structural)]
pub struct Date {
    pub day: u32,
    pub month: Month,
}

/// The one-based number of a month.
pub open spec fn month_number(m: Month) -> int {
    match m {
        Month::January => 1,
        Month::February => 2,
        Month::March => 3,
        Month::April => 4,
        Month::May => 5,
        Month::June => 6,
        Month::July => 7,
        Month::August => 8,
        Month::September => 9,
        Month::October => 10,
        Month::November => 11,
        Month::December => 12,
    }
}

/// The month a three-letter lowercase abbreviation names.
pub open spec fn month_of(t: Seq<char>) -> Option<Month> {
    if t == "jan"@ {
        Some(Month::January)
    } else if t == "feb"@ {
        Some(Month::February)
    } else if t == "mar"@ {
        Some(Month::March)
    } else if t == "apr"@ {
        Some(Month::April)
    } else if t == "may"@ {
        Some(Month::May)
    } else if t == "jun"@ {
        Some(Month::June)
    } else if t == "jul"@ {
        Some(Month::July)
    } else if t == "aug"@ {
        Some(Month::August)
    } else if t == "sep"@ {
        Some(Month::September)
    } else if t == "oct"@ {
        Some(Month::October)
    } else if t == "nov"@ {
        Some(Month::November)
    } else if t == "dec"@ {
        Some(Month::December)
    } else {
        None
    }
}

/// What parsing a date string must yield: `today` is the current day and
/// month; anything else is read as a day token then a month token, split on
/// whitespace, with extra tokens ignored.
pub open spec fn date_result_matches(s: Seq<char>, r: Result<Date, DateError>) -> bool {
    if s == "today"@ {
        r matches Ok(d) && 1 <= d.day <= 31
    } else {
        let toks = segments(SepKind::Whitespace, s);
        if toks.len() == 0 {
            r matches Err(DateError::EmptyDay)
        } else if toks.len() == 1 {
            r matches Err(DateError::EmptyMonth)
        } else if !parses_as_u32(toks[0]) {
            r matches Err(DateError::InvalidDay(t)) && t@ == toks[0]
        } else {
            match month_of(lower_of(toks[1])) {
                None => r matches Err(DateError::InvalidMonth(t)) && t@ == toks[1],
                Some(m) => r matches Ok(d) && d.day == u32_of(toks[0]) && d.month == m,
            }
        }
    }
}

/// Relies on chrono's `Local::now` and `Datelike::day` / `Datelike::month`
/// for the current civil date: both accessors are one-based, a day of month
/// is at most 31 and a month at most 12.
#[verifier::external_body]
fn current_day_month() -> (r: (u32, u32))
    ensures
        1 <= r.0 <= 31,
        1 <= r.1 <= 12,
{
    let now = chrono::Local::now();
    (chrono::Datelike::day(&now), chrono::Datelike::month(&now))
}

fn month_from_number(m: u32) -> (r: Month)
    requires
        1 <= m <= 12,
    ensures
        month_number(r) == m,
{
    if m == 1 {
        Month::January
    } else if m == 2 {
        Month::February
    } else if m == 3 {
        Month::March
    } else if m == 4 {
        Month::April
    } else if m == 5 {
        Month::May
    } else if m == 6 {
        Month::June
    } else if m == 7 {
        Month::July
    } else if m == 8 {
        Month::August
    } else if m == 9 {
        Month::September
    } else if m == 10 {
        Month::October
    } else if m == 11 {
        Month::November
    } else {
        Month::December
    }
}

impl Default for Date {
    /// The current day and month, read once from the system clock.
    fn default() -> (d: Date)
        ensures
            1 <= d.day <= 31,
    {
        let (day, month_num) = current_day_month();
        Date { day, month: month_from_number(month_num) }
    }
}

impl Date {
    pub fn new(day: u32, month: Month) -> (r: Self)
        ensures
            r.day == day,
            r.month == month,
    {
        Self { day, month }
    }

    /// Read a month from its three-letter abbreviation, in any case; the
    /// diagnostic carries the token as it was supplied.
    pub fn parse_month(month: &str) -> (r: Result<Month, DateError>)
        ensures
            match month_of(lower_of(month@)) {
                Some(m) => r matches Ok(got) && got == m,
                None => r matches Err(DateError::InvalidMonth(t)) && t@ == month@,
            },
    {
        let low = to_lowercase(month);
        if str_eq(low.as_str(), "jan") {
            Ok(Month::January)
        } else if str_eq(low.as_str(), "feb") {
            Ok(Month::February)
        } else if str_eq(low.as_str(), "mar") {
            Ok(Month::March)
        } else if str_eq(low.as_str(), "apr") {
            Ok(Month::April)
        } else if str_eq(low.as_str(), "may") {
            Ok(Month::May)
        } else if str_eq(low.as_str(), "jun") {
            Ok(Month::June)
        } else if str_eq(low.as_str(), "jul") {
            Ok(Month::July)
        } else if str_eq(low.as_str(), "aug") {
            Ok(Month::August)
        } else if str_eq(low.as_str(), "sep") {
            Ok(Month::September)
        } else if str_eq(low.as_str(), "oct") {
            Ok(Month::October)
        } else if str_eq(low.as_str(), "nov") {
            Ok(Month::November)
        } else if str_eq(low.as_str(), "dec") {
            Ok(Month::December)
        } else {
            Err(DateError::InvalidMonth(month.to_owned()))
        }
    }

    /// Parse `today`, or a day numeral and a month abbreviation separated by
    /// whitespace.
    pub fn from_str(s: &str) -> (r: Result<Date, DateError>)
        ensures
            date_result_matches(s@, r),
    {
        if str_eq(s, "today") {
            return Ok(Date::default());
        }
        let v = to_char_vec(s);
        let toks = sep_fields(SepKind::Whitespace, &v);
        let ghost tok_segs = segments(SepKind::Whitespace, s@);
        if toks.len() == 0 {
            return Err(DateError::EmptyDay);
        }
        if toks.len() == 1 {
            return Err(DateError::EmptyMonth);
        }
        let (d_a, d_b) = toks[0];
        let day_chars = char_subvec(&v, d_a, d_b);
        proof {
            assert(day_chars@ == tok_segs[0]);
        }
        let day = match parse_u32(&day_chars) {
            Some(d) => d,
            None => {
                return Err(DateError::InvalidDay(s.substring_char(d_a, d_b).to_owned()));
            },
        };
        let (m_a, m_b) = toks[1];
        proof {
            assert(s@.subrange(m_a as int, m_b as int) == tok_segs[1]);
        }
        let month = match Self::parse_month(s.substring_char(m_a, m_b)) {
            Ok(m) => m,
            Err(e) => {
                return Err(e);
            },
        };
        Ok(Date { day, month })
    }
}

/// The user-facing message each date diagnostic renders to.
pub open spec fn date_error_message(e: DateError) -> Seq<char> {
    match e {
        DateError::EmptyDay => "Date day input was empty"@,
        DateError::EmptyMonth => "Date month input was empty"@,
        DateError::InvalidDay(t) => "Date day invalid input ("@ + t@ + ")"@,
        DateError::InvalidMonth(t) => "Date month invalid input ("@ + t@ + ")"@,
    }
}

impl DateError {
    /// Render the diagnostic as text.
    pub fn to_message(&self) -> (r: String)
        ensures
            r@ == date_error_message(*self),
    {
        match self {
            DateError::EmptyDay => "Date day input was empty".to_owned(),
            DateError::EmptyMonth => "Date month input was empty".to_owned(),
            DateError::InvalidDay(t) => {
                let mut m = "Date day invalid input (".to_owned();
                m.append(t.as_str());
                m.append(")");
                m
            },
            DateError::InvalidMonth(t) => {
                let mut m = "Date month invalid input (".to_owned();
                m.append(t.as_str());
                m.append(")");
                m
            },
        }
    }
}

} // verus!
