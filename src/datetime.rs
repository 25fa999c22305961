//! MS-DOS time and date fields, calendar dates for the date filters, and
//! the parsing of the filters' date arguments.
use vstd::prelude::*;
use vstd::string::StrSliceExecFns;
use vstd::string::StringSliceAdditionalSpecFns;

verus! {

/// Broken-down local time, as the MS-DOS fields carry it.
#[derive(Debug, Clone, Copy, PartialEq, Eq, Structural)]
pub struct DosDateTime {
    pub year: u32,
    pub month: u32,
    pub day: u32,
    pub hour: u32,
    pub minute: u32,
    pub second: u32,
}

/// Whether the components are those of a time of day and a plausible date.
pub open spec fn valid_parts(month: u32, day: u32, hour: u32, minute: u32, second: u32) -> bool {
    1 <= month <= 12 && 1 <= day <= 31 && hour < 24 && minute < 60 && second < 61
}

/// The MS-DOS time field: hour, minute, and seconds halved.
pub open spec fn dos_time_spec(hour: u32, minute: u32, second: u32) -> u16 {
    ((hour * 2048) + (minute * 32) + (second / 2)) as u16
}

/// The MS-DOS date field: years since 1980 (seven bits), month, day.
pub open spec fn dos_date_spec(year: i32, month: u32, day: u32) -> u16 {
    ((((year - 1980) % 128) * 512) + (month * 32) + day) as u16
}

/// Time and date fields of a moment; moments before 1980 clamp to
/// 1980-01-01 00:00:00.
pub open spec fn dos_fields(year: i32, month: u32, day: u32, hour: u32, minute: u32, second: u32) -> (u16, u16) {
    if year < 1980 {
        (0, 0x21)
    } else {
        (dos_time_spec(hour, minute, second), dos_date_spec(year, month, day))
    }
}

pub fn to_dos_time_date(year: i32, month: u32, day: u32, hour: u32, minute: u32, second: u32) -> (r: (u16, u16))
    requires
        valid_parts(month, day, hour, minute, second),
    ensures
        r == dos_fields(year, month, day, hour, minute, second),
{
    if year < 1980 {
        return (0, 0x21);
    }
    let y: u32 = ((year - 1980) % 128) as u32;
    let time: u16 = (hour * 2048 + minute * 32 + second / 2) as u16;
    let date: u16 = (y * 512 + month * 32 + day) as u16;
    (time, date)
}

/// What the time and date fields say.
pub open spec fn dos_parts_spec(time: u16, date: u16) -> DosDateTime {
    DosDateTime {
        year: ((date / 512) + 1980) as u32,
        month: ((date / 32) % 16) as u32,
        day: (date % 32) as u32,
        hour: (time / 2048) as u32,
        minute: ((time / 32) % 64) as u32,
        second: ((time % 32) * 2) as u32,
    }
}

pub fn from_dos_time_date(time: u16, date: u16) -> (r: DosDateTime)
    ensures
        r == dos_parts_spec(time, date),
{
    DosDateTime {
        year: (date / 512) as u32 + 1980,
        month: ((date / 32) % 16) as u32,
        day: (date % 32) as u32,
        hour: (time / 2048) as u32,
        minute: ((time / 32) % 64) as u32,
        second: ((time % 32) * 2) as u32,
    }
}

/// MS-DOS fields round trip: a moment from 1980 through 2107 reads back
/// unchanged but for the seconds, which lose their lowest bit.
pub proof fn lemma_dos_round_trip(year: i32, month: u32, day: u32, hour: u32, minute: u32, second: u32)
    requires
        valid_parts(month, day, hour, minute, second),
        second < 60,
        1980 <= year <= 2107,
    ensures
        dos_parts_spec(dos_time_spec(hour, minute, second), dos_date_spec(year, month, day))
            == (DosDateTime {
            year: year as u32,
            month,
            day,
            hour,
            minute,
            second: (second - second % 2) as u32,
        }),
{
    let t = hour * 2048 + minute * 32 + second / 2;
    let d = (year - 1980) * 512 + month * 32 + day;
    assert(t < 65536 && d < 65536);
    assert(t / 2048 == hour && (t / 32) % 64 == minute && t % 32 == second / 2) by (nonlinear_arith)
        requires
            t == hour * 2048 + minute * 32 + second / 2,
            hour < 24,
            minute < 60,
            second < 60,
    ;
    assert(d / 512 == year - 1980 && (d / 32) % 16 == month && d % 32 == day) by (nonlinear_arith)
        requires
            d == (year - 1980) * 512 + month * 32 + day,
            1 <= month <= 12,
            1 <= day <= 31,
            0 <= year - 1980 < 128,
    ;
}

/// A calendar date, as the date filters compare them.
#[derive(Debug, Clone, Copy, PartialEq, Eq, Structural)]
pub struct CalendarDate {
    pub year: i32,
    pub month: u32,
    pub day: u32,
}

/// Whether `a` falls on an earlier day than `b`.
pub open spec fn date_lt(a: CalendarDate, b: CalendarDate) -> bool {
    a.year < b.year || (a.year == b.year && (a.month < b.month || (a.month == b.month && a.day
        < b.day)))
}

impl CalendarDate {
    pub fn is_before(&self, other: &CalendarDate) -> (r: bool)
        ensures
            r == date_lt(*self, *other),
    {
        self.year < other.year || (self.year == other.year && (self.month < other.month || (
        self.month == other.month && self.day < other.day)))
    }
}

/// Whether a file modified on `modified` passes the date filters: on or
/// after `after`, and before `before`.
pub open spec fn date_in_range(modified: CalendarDate, after: Option<CalendarDate>, before: Option<CalendarDate>) -> bool {
    (match after {
        Some(a) => !date_lt(modified, a),
        None => true,
    }) && (match before {
        Some(b) => date_lt(modified, b),
        None => true,
    })
}

pub fn check_after_date(modified: CalendarDate, after: &CalendarDate) -> (r: bool)
    ensures
        r == !date_lt(modified, *after),
{
    !modified.is_before(after)
}

pub fn check_before_date(modified: CalendarDate, before: &CalendarDate) -> (r: bool)
    ensures
        r == date_lt(modified, *before),
{
    modified.is_before(before)
}

pub fn check_date_range(modified: CalendarDate, after: &CalendarDate, before: &CalendarDate) -> (r: bool)
    ensures
        r == (!date_lt(modified, *after) && date_lt(modified, *before)),
{
    !(modified.is_before(after) || !modified.is_before(before))
}

/// The date filters together; a file whose date is unknown never passes.
pub fn passes_date_filters(
    modified: Option<CalendarDate>,
    after: Option<CalendarDate>,
    before: Option<CalendarDate>,
) -> (r: bool)
    ensures
        r == (modified matches Some(m) && date_in_range(m, after, before)),
{
    match modified {
        None => false,
        Some(m) => match (after, before) {
            (Some(a), None) => check_after_date(m, &a),
            (None, Some(b)) => check_before_date(m, &b),
            (Some(a), Some(b)) => check_date_range(m, &a, &b),
            (None, None) => true,
        },
    }
}

/// The date that chrono's `NaiveDate::parse_from_str` reads from `s` with
/// format `fmt`, as year, month and day.
pub uninterp spec fn chrono_date(s: Seq<char>, fmt: Seq<char>) -> Option<(i32, u32, u32)>;

/// Relies on chrono::NaiveDate::parse_from_str: the date that the text
/// spells in the format, or `None` where it spells none.
#[verifier::external_body]
fn parse_with_format(s: &str, fmt: &str) -> (r: Option<CalendarDate>)
    ensures
        r == (match chrono_date(s@, fmt@) {
            Some((y, m, d)) => Some(CalendarDate { year: y, month: m, day: d }),
            None => None::<CalendarDate>,
        }),
{
    match chrono::NaiveDate::parse_from_str(s, fmt) {
        Ok(d) => Some(
            CalendarDate {
                year: chrono::Datelike::year(&d),
                month: chrono::Datelike::month(&d),
                day: chrono::Datelike::day(&d),
            },
        ),
        Err(_) => None,
    }
}

fn contains_char(s: &str, c: char) -> (r: bool)
    ensures
        r == s@.contains(c),
{
    let n = s.unicode_len();
    let mut i: usize = 0;
    while i < n
        invariant
            0 <= i <= n,
            n == s@.len(),
            forall|j: int| 0 <= j < i ==> s@[j] != c,
        decreases n - i,
    {
        if s.get_char(i) == c {
            return true;
        }
        i = i + 1;
    }
    false
}

/// The date that a filter argument spells, in the format its length and
/// dashes select: eight bytes read as MMDDYYYY, ten with a dash as YYYY-MM-DD.
pub open spec fn date_arg_spec(s: &str) -> Option<CalendarDate> {
    let fmt = if s.spec_bytes().len() == 8 {
        Some("%m%d%Y"@)
    } else if s.spec_bytes().len() == 10 && s@.contains('-') {
        Some("%Y-%m-%d"@)
    } else {
        None
    };
    match fmt {
        Some(f) => match chrono_date(s@, f) {
            Some((y, m, d)) => Some(CalendarDate { year: y, month: m, day: d }),
            None => None,
        },
        None => None,
    }
}

/// Parses the argument of a date filter (MMDDYYYY or YYYY-MM-DD).
pub fn parse_date(date_str: &str) -> (r: Result<CalendarDate, String>)
    ensures
        r is Ok <==> date_arg_spec(date_str).is_some(),
        r matches Ok(d) ==> Some(d) == date_arg_spec(date_str),
{
    let n = date_str.as_bytes().len();
    if n == 8 {
        match parse_with_format(date_str, "%m%d%Y") {
            Some(d) => Ok(d),
            None => Err("Invalid MMDDYYYY date format".to_string()),
        }
    } else if n == 10 && contains_char(date_str, '-') {
        match parse_with_format(date_str, "%Y-%m-%d") {
            Some(d) => Ok(d),
            None => Err("Invalid YYYY-MM-DD date format".to_string()),
        }
    } else {
        Err("Date must be in MMDDYYYY or YYYY-MM-DD format".to_string())
    }
}

} // verus!
