use vstd::prelude::*;
use vstd::string::StringExecFns;

use crate::text::{decimal, push_decimal, push_two_digits, two_digits};

verus! {

/// A day of the proleptic Gregorian calendar, as year, month and day.
#[derive(Clone, Copy, Debug, PartialEq, Eq, Structural)]
pub struct CivilDate {
    pub year: i16,
    pub month: u8,
    pub day: u8,
}

impl CivilDate {
    /// Month and day in their calendar ranges, the year in the range of a
    /// four-digit signed year.
    pub open spec fn wf(self) -> bool {
        &&& -9999 <= self.year <= 9999
        &&& 1 <= self.month <= 12
        &&& 1 <= self.day <= 31
    }

    /// Whether the year can be written with two digits, as the window
    /// 1969 to 2068 reads them back.
    pub open spec fn has_two_digit_year(self) -> bool {
        1969 <= self.year <= 2068
    }
}

/// The version for `prefix` on `date`: `<prefix>.<YY>0<MM>.<DD>`, a literal
/// zero between the two-digit year and the two-digit month.
pub open spec fn version_text(prefix: nat, date: CivilDate) -> Seq<char> {
    decimal(prefix) + seq!['.'] + two_digits((date.year % 100) as nat) + seq!['0'] + two_digits(
        date.month as nat,
    ) + seq!['.'] + two_digits(date.day as nat)
}

/// Relies on jiff's fallible conversion `Timestamp::try_from(SystemTime)` and
/// on `Timestamp::to_zoned` with the UTC calendar: the current day in UTC,
/// within jiff's supported range of years; `None` where the system clock lies
/// outside that range.
#[verifier::external_body]
fn today_utc() -> (r: Option<CivilDate>)
    ensures
        r matches Some(d) ==> d.wf(),
{
    match jiff::Timestamp::try_from(std::time::SystemTime::now()) {
        Ok(t) => {
            let zoned = t.to_zoned(jiff::tz::TimeZone::UTC);
            Some(CivilDate { year: zoned.year(), month: zoned.month() as u8, day: zoned.day() as u8 })
        },
        Err(_) => None,
    }
}

/// The version string for `prefix` on `date`; `None` where the year has no
/// two-digit form.
pub fn stamp_version(prefix: u16, date: CivilDate) -> (r: Option<String>)
    requires
        date.wf(),
    ensures
        r is Some <==> date.has_two_digit_year(),
        r matches Some(s) ==> s@ == version_text(prefix as nat, date),
{
    if date.year < 1969 || date.year > 2068 {
        return None;
    }
    let mut s = String::new();
    push_decimal(&mut s, prefix as u64);
    s.append(".");
    push_two_digits(&mut s, (date.year % 100) as u8);
    s.append("0");
    push_two_digits(&mut s, date.month);
    s.append(".");
    push_two_digits(&mut s, date.day);
    proof {
        reveal_strlit(".");
        reveal_strlit("0");
        assert(s@ =~= version_text(prefix as nat, date));
    }
    Some(s)
}

/// The version string for `prefix` on the current day in UTC; `None` where
/// the clock cannot be read as a day or that year has no two-digit form.
pub fn current_version(prefix: u16) -> (r: Option<String>)
    ensures
        r matches Some(s) ==> exists|d: CivilDate|
            d.wf() && d.has_two_digit_year() && s@ == version_text(prefix as nat, d),
{
    match today_utc() {
        Some(today) => stamp_version(prefix, today),
        None => None,
    }
}

} // verus!
