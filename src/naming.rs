//! Calendar days and the deployment names built from them.
use vstd::prelude::*;
use vstd::string::*;
use crate::error::HammerError;
use crate::history::{deployment_path, path_of, NAME_PREFIX};

verus! {

/// A calendar day.
#[derive(Debug, Clone, Copy, PartialEq, Eq)]
pub struct Day {
    pub year: i32,
    pub month: u32,
    pub day: u32,
}

pub open spec fn is_leap(y: int) -> bool {
    (y % 4 == 0 && y % 100 != 0) || y % 400 == 0
}

pub open spec fn days_in_month(y: int, m: int) -> int {
    if m == 2 {
        if is_leap(y) {
            29
        } else {
            28
        }
    } else if m == 4 || m == 6 || m == 9 || m == 11 {
        30
    } else {
        31
    }
}

/// A day that exists in the calendar and whose year has four digits at most.
pub open spec fn valid_day(d: Day) -> bool {
    0 <= d.year <= 9999 && 1 <= d.month <= 12 && 1 <= d.day <= days_in_month(
        d.year as int,
        d.month as int,
    )
}

pub open spec fn digit(n: int) -> char {
    seq!['0', '1', '2', '3', '4', '5', '6', '7', '8', '9'][n]
}

/// `YYYY-MM-DD`, each field zero-padded.
pub open spec fn iso_text(y: int, m: int, d: int) -> Seq<char> {
    seq![
        digit(y / 1000),
        digit((y / 100) % 10),
        digit((y / 10) % 10),
        digit(y % 10),
        '-',
        digit(m / 10),
        digit(m % 10),
        '-',
        digit(d / 10),
        digit(d % 10),
    ]
}

/// The name of the deployment made on day `d`.
pub open spec fn name_of_day(d: Day) -> Seq<char> {
    NAME_PREFIX@ + iso_text(d.year as int, d.month as int, d.day as int)
}

/// Relies on chrono's `NaiveDate::from_ymd_opt`, which accepts every calendar
/// date of these years, and on its `%Y-%m-%d` format: the year as four digits
/// (chrono pads years 0 to 9999 with zeros), month and day as two.
#[verifier::external_body]
fn iso_date(year: i32, month: u32, day: u32) -> (r: String)
    requires
        0 <= year <= 9999,
        1 <= month <= 12,
        1 <= day <= days_in_month(year as int, month as int),
    ensures
        r@ == iso_text(year as int, month as int, day as int),
{
    chrono::NaiveDate::from_ymd_opt(year, month, day).unwrap().format("%Y-%m-%d").to_string()
}

/// Whether `d` is a day that deployments can be named after.
pub fn is_valid_day(d: &Day) -> (r: bool)
    ensures
        r == valid_day(*d),
{
    if d.year < 0 || d.year > 9999 || d.month < 1 || d.month > 12 || d.day < 1 {
        return false;
    }
    let leap = (d.year % 4 == 0 && d.year % 100 != 0) || d.year % 400 == 0;
    let last: u32 = if d.month == 2 {
        if leap {
            29
        } else {
            28
        }
    } else if d.month == 4 || d.month == 6 || d.month == 9 || d.month == 11 {
        30
    } else {
        31
    };
    d.day <= last
}

/// The name of the deployment made on `d`, `hammer-YYYY-MM-DD`.
pub fn deployment_name(d: &Day) -> (r: Result<String, HammerError>)
    ensures
        r is Ok <==> valid_day(*d),
        r matches Ok(s) ==> s@ == name_of_day(*d),
        r is Err ==> r == Err::<String, HammerError>(HammerError::InvalidDate),
{
    if !is_valid_day(d) {
        return Err(HammerError::InvalidDate);
    }
    let mut s = String::from_str(NAME_PREFIX);
    let iso = iso_date(d.year, d.month, d.day);
    s.append(iso.as_str());
    Ok(s)
}

/// The path of the deployment made on `d`.
pub fn deployment_path_for(d: &Day) -> (r: Result<String, HammerError>)
    ensures
        r is Ok <==> valid_day(*d),
        r matches Ok(s) ==> s@ == path_of(name_of_day(*d)),
        r is Err ==> r == Err::<String, HammerError>(HammerError::InvalidDate),
{
    match deployment_name(d) {
        Ok(n) => Ok(deployment_path(n.as_str())),
        Err(e) => Err(e),
    }
}

} // verus!
