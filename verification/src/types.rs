//! The records of the catalogue: venues, songs, shows, sets and song
//! performances.
//!
//! Identifiers are UUIDs, held here as their 128-bit value.
use vstd::prelude::*;
use chrono::{Datelike, NaiveDate};
use geoutils::Location;

verus! {

#[verifier::external_type_specification]
#[verifier::external_body]
pub struct ExNaiveDate(NaiveDate);

#[verifier::external_type_specification]
#[verifier::external_body]
pub struct ExLocation(Location);

#[derive(Debug)]
pub struct Venue {
    pub id: u128,
    pub name: String,
    pub location: Option<Location>,
}

#[derive(Debug)]
pub struct Song {
    pub id: u128,
    pub title: String,
}

#[derive(Copy, Clone, Debug)]
pub struct Show {
    pub id: u128,
    pub date: NaiveDate,
    pub venue_id: u128,
}

#[derive(Copy, Clone, Debug)]
pub struct ShowRkyv {
    pub id: u128,
    pub date: NaiveDateRkyv,
    pub venue_id: u128,
}

#[derive(Copy, Clone, Debug, PartialEq, Eq, Structural)]
pub struct NaiveDateRkyv {
    pub month: u32,
    pub year: i32,
    pub day: u32,
}

#[derive(Copy, Clone, Debug)]
pub struct ShowSet {
    pub id: u128,
    pub show_id: u128,
    pub set_name: SetName,
}

#[derive(Copy, Clone, Debug, PartialEq, Eq, Hash, Structural)]
pub enum SetName {
    Set1,
    Set2,
    Set3,
    Set4,
    Encore,
    Encore2,
    Encore3,
    PreShow,
    Soundcheck,
    Unknown,
}

#[derive(Copy, Clone, Debug)]
pub struct SongPerformance {
    pub id: u128,
    pub set_id: u128,
    pub song_id: u128,
}

impl Clone for Venue {
    fn clone(&self) -> (r: Self)
        ensures
            r == *self,
    {
        Venue { id: self.id, name: self.name.clone(), location: self.location }
    }
}

impl Clone for Song {
    fn clone(&self) -> (r: Self)
        ensures
            r == *self,
    {
        Song { id: self.id, title: self.title.clone() }
    }
}

// ---------------------------------------------------------------------------
// Calendar dates.

/// The earliest and latest years that `chrono::NaiveDate` can hold.
pub open spec fn min_date_year() -> int {
    -262143
}

pub open spec fn max_date_year() -> int {
    262142
}

/// Leap years of the proleptic Gregorian calendar.
pub open spec fn is_leap_year(y: int) -> bool {
    (y % 4 == 0 && y % 100 != 0) || y % 400 == 0
}

pub open spec fn days_in_month(y: int, m: int) -> int {
    if m == 2 {
        if is_leap_year(y) {
            29
        } else {
            28
        }
    } else if m == 4 || m == 6 || m == 9 || m == 11 {
        30
    } else {
        31
    }
}

/// A calendar date that `chrono::NaiveDate` can represent.
pub open spec fn is_valid_date(year: int, month: int, day: int) -> bool {
    &&& min_date_year() <= year <= max_date_year()
    &&& 1 <= month <= 12
    &&& 1 <= day <= days_in_month(year, month)
}

/// What `chrono::NaiveDate::from_ymd_opt` gives for a year, month and day.
pub uninterp spec fn date_from_ymd(year: i32, month: u32, day: u32) -> Option<NaiveDate>;

/// Makes a date with `chrono::NaiveDate::from_ymd_opt`, which gives `None`
/// for a day that does not exist, a month or day out of range, or a year
/// out of the range of `NaiveDate`. The date it makes depends on the year,
/// month and day alone; which `NaiveDate` that is stays behind the name
/// `date_from_ymd`, a `NaiveDate` being opaque here.
#[verifier::external_body]
fn naive_date_from_ymd(year: i32, month: u32, day: u32) -> (r: Option<NaiveDate>)
    ensures
        r == date_from_ymd(year, month, day),
        r is Some <==> is_valid_date(year as int, month as int, day as int),
        r is Some ==> forall|y: i32, m: u32, d: u32|
            is_valid_date(y as int, m as int, d as int) && #[trigger] date_from_ymd(y, m, d) == r ==> y == year
                && m == month && d == day,
{
    NaiveDate::from_ymd_opt(year, month, day)
}

/// The year, month and day of a date, by `Datelike::year`, `month` and
/// `day`. A `NaiveDate` always holds a date that exists, and chrono makes
/// that very date again from its year, month and day
/// (`NaiveDate::from_ymd_opt`), and from no other valid year, month and day.
#[verifier::external_body]
fn naive_date_parts(d: &NaiveDate) -> (r: (i32, u32, u32))
    ensures
        is_valid_date(r.0 as int, r.1 as int, r.2 as int),
        date_from_ymd(r.0, r.1, r.2) == Some(*d),
        forall|y: i32, m: u32, dd: u32|
            is_valid_date(y as int, m as int, dd as int) && #[trigger] date_from_ymd(y, m, dd) == Some(*d) ==> y
                == r.0 && m == r.1 && dd == r.2,
{
    (d.year(), d.month(), d.day())
}

/// Plain date parts that make a `chrono` date.
pub open spec fn makes_date(p: NaiveDateRkyv, date: NaiveDate) -> bool {
    p.is_valid() && date_from_ymd(p.year, p.month, p.day) == Some(date)
}

/// The only plain date parts that make a date.
pub open spec fn only_parts_of(p: NaiveDateRkyv, date: NaiveDate) -> bool {
    forall|q: NaiveDateRkyv| #[trigger] makes_date(q, date) ==> q == p
}

impl NaiveDateRkyv {
    /// The year, month and day of a `chrono` date: the parts from which
    /// chrono makes that date again.
    pub fn from(value: NaiveDate) -> (r: NaiveDateRkyv)
        ensures
            r.is_valid(),
            date_from_ymd(r.year, r.month, r.day) == Some(value),
            only_parts_of(r, value),
    {
        let (year, month, day) = naive_date_parts(&value);
        let r = NaiveDateRkyv { month, year, day };
        assert forall|q: NaiveDateRkyv| #[trigger] makes_date(q, value) implies q == r by {
            assert(date_from_ymd(q.year, q.month, q.day) == Some(value));
        }
        r
    }

    pub open spec fn is_valid(&self) -> bool {
        is_valid_date(self.year as int, self.month as int, self.day as int)
    }

    /// The `chrono` date with this year, month and day; the date must exist.
    pub fn to_naive_date(self) -> (r: NaiveDate)
        requires
            self.is_valid(),
        ensures
            date_from_ymd(self.year, self.month, self.day) == Some(r),
    {
        naive_date_from_ymd(self.year, self.month, self.day).unwrap()
    }
}

impl ShowRkyv {
    pub fn from(value: Show) -> (r: ShowRkyv)
        ensures
            r.id == value.id,
            r.venue_id == value.venue_id,
            r.date.is_valid(),
            date_from_ymd(r.date.year, r.date.month, r.date.day) == Some(value.date),
            only_parts_of(r.date, value.date),
    {
        ShowRkyv { id: value.id, date: NaiveDateRkyv::from(value.date), venue_id: value.venue_id }
    }

    pub fn from_ref(value: &Show) -> (r: ShowRkyv)
        ensures
            r.id == value.id,
            r.venue_id == value.venue_id,
            r.date.is_valid(),
            date_from_ymd(r.date.year, r.date.month, r.date.day) == Some(value.date),
            only_parts_of(r.date, value.date),
    {
        ShowRkyv { id: value.id, date: NaiveDateRkyv::from(value.date), venue_id: value.venue_id }
    }
}

impl Show {
    /// The show with a `chrono` date; its date must exist.
    pub fn from(value: ShowRkyv) -> (r: Show)
        requires
            value.date.is_valid(),
        ensures
            r.id == value.id,
            r.venue_id == value.venue_id,
            date_from_ymd(value.date.year, value.date.month, value.date.day) == Some(r.date),
    {
        Show { id: value.id, date: value.date.to_naive_date(), venue_id: value.venue_id }
    }
}

/// Archiving a show by reference and by value gives the same archived show:
/// the plain parts of its date are the only ones that make that date.
pub proof fn law_archive_by_reference_and_value(show: Show, by_ref: ShowRkyv, by_value: ShowRkyv)
    requires
        by_ref.id == show.id,
        by_ref.venue_id == show.venue_id,
        makes_date(by_ref.date, show.date),
        only_parts_of(by_ref.date, show.date),
        by_value.id == show.id,
        by_value.venue_id == show.venue_id,
        makes_date(by_value.date, show.date),
    ensures
        by_ref == by_value,
{
}

/// A show archived with its plain date and read back is the same show: a
/// date's parts give that date again, and reading the parts back gives the
/// date that they make.
pub proof fn law_show_round_trip(show: Show, archived: ShowRkyv, back: Show)
    requires
        archived.id == show.id,
        archived.venue_id == show.venue_id,
        date_from_ymd(archived.date.year, archived.date.month, archived.date.day) == Some(show.date),
        back.id == archived.id,
        back.venue_id == archived.venue_id,
        date_from_ymd(archived.date.year, archived.date.month, archived.date.day) == Some(back.date),
    ensures
        back == show,
{
}

// ---------------------------------------------------------------------------
// Set names.

/// The name under which a set is displayed: the variant's name.
pub open spec fn set_name_text(s: SetName) -> Seq<char> {
    match s {
        SetName::Set1 => "Set1"@,
        SetName::Set2 => "Set2"@,
        SetName::Set3 => "Set3"@,
        SetName::Set4 => "Set4"@,
        SetName::Encore => "Encore"@,
        SetName::Encore2 => "Encore2"@,
        SetName::Encore3 => "Encore3"@,
        SetName::PreShow => "PreShow"@,
        SetName::Soundcheck => "Soundcheck"@,
        SetName::Unknown => "Unknown"@,
    }
}

impl SetName {
    /// The displayed form of a set name.
    pub fn to_string(&self) -> (r: String)
        ensures
            r@ == set_name_text(*self),
    {
        let s = match self {
            SetName::Set1 => "Set1",
            SetName::Set2 => "Set2",
            SetName::Set3 => "Set3",
            SetName::Set4 => "Set4",
            SetName::Encore => "Encore",
            SetName::Encore2 => "Encore2",
            SetName::Encore3 => "Encore3",
            SetName::PreShow => "PreShow",
            SetName::Soundcheck => "Soundcheck",
            SetName::Unknown => "Unknown",
        };
        s.to_owned()
    }
}

} // verus!
