//! Reading show dates out of a free-text search query.
//!
//! A query is cut into words; each word may name a month, a day of the
//! month or a year, and the dates a query can mean are every combination of
//! a month, a day and a year taken from different words.
use vstd::prelude::*;
use smallvec::SmallVec;
use smol_str::StrExt;

use crate::text::{
    all_ascii_digits, decimal_value, is_ascii_text, lemma_digits_parse, parse_u32, str_equals,
    u32_text_value,
};

use crate::regexes::{regex_is_match, regex_is_valid, regex_matches, regex_split};

verus! {

#[derive(Copy, Clone, Debug, PartialEq, Eq, Structural)]
pub enum Month {
    January,
    February,
    March,
    April,
    May,
    June,
    July,
    August,
    September,
    October,
    November,
    December,
}

#[derive(Copy, Clone, Debug, PartialEq, Eq, Structural)]
pub struct Year(pub u32);

#[derive(Copy, Clone, Debug, PartialEq, Eq, Structural)]
pub struct DayOfMonth(pub u32);

#[derive(Copy, Clone, Debug, PartialEq, Eq, Structural)]
pub enum ShowDate {
    MonthAndDay { month: Month, day: DayOfMonth },
    MonthAndYear { month: Month, year: Year },
    MonthAndDayAndYear { month: Month, day: DayOfMonth, year: Year },
}

// ---------------------------------------------------------------------------
// What the words of a query mean.

/// The month that a lower-cased word names, if any.
pub open spec fn month_named(s: Seq<char>) -> Result<Month, ()> {
    if s == "1"@ || s == "01"@ || s == "jan"@ || s == "january"@ {
        Ok(Month::January)
    } else if s == "2"@ || s == "02"@ || s == "feb"@ || s == "february"@ {
        Ok(Month::February)
    } else if s == "3"@ || s == "03"@ || s == "mar"@ || s == "march"@ {
        Ok(Month::March)
    } else if s == "4"@ || s == "04"@ || s == "apr"@ || s == "april"@ {
        Ok(Month::April)
    } else if s == "5"@ || s == "05"@ || s == "may"@ {
        Ok(Month::May)
    } else if s == "6"@ || s == "06"@ || s == "jun"@ || s == "june"@ {
        Ok(Month::June)
    } else if s == "7"@ || s == "07"@ || s == "jul"@ || s == "july"@ {
        Ok(Month::July)
    } else if s == "8"@ || s == "08"@ || s == "aug"@ || s == "august"@ {
        Ok(Month::August)
    } else if s == "9"@ || s == "09"@ || s == "sep"@ || s == "sept"@ || s == "september"@ {
        Ok(Month::September)
    } else if s == "10"@ || s == "oct"@ || s == "october"@ {
        Ok(Month::October)
    } else if s == "11"@ || s == "nov"@ || s == "november"@ {
        Ok(Month::November)
    } else if s == "12"@ || s == "dec"@ || s == "december"@ {
        Ok(Month::December)
    } else {
        Err(())
    }
}

/// The year a word stands for, given whether it has the shape of a year
/// (four digits). A word of that shape is read as a decimal number and kept
/// when it lies in 1980..=2040.
pub open spec fn year_from_shape(s: Seq<char>, matched: bool) -> Result<Year, ()> {
    if !matched {
        Err(())
    } else {
        match u32_text_value(s) {
            Some(v) => if v < 1980 || v > 2040 { Err(()) } else { Ok(Year(v)) },
            None => Err(()),
        }
    }
}

/// The day of the month a word stands for, given whether it has the shape
/// of a day (one or two digits). Kept when it lies in 1..=31.
pub open spec fn day_from_shape(s: Seq<char>, matched: bool) -> Result<DayOfMonth, ()> {
    if !matched {
        Err(())
    } else {
        match u32_text_value(s) {
            Some(v) => if v < 1 || v > 31 { Err(()) } else { Ok(DayOfMonth(v)) },
            None => Err(()),
        }
    }
}

/// The lower-case form of a text, as `smol_str`'s `to_lowercase_smolstr`
/// computes it.
pub uninterp spec fn lowercase_of(s: Seq<char>) -> Seq<char>;

/// The pattern of a word that has the shape of a year: four digits.
pub open spec fn year_pattern() -> Seq<char> {
    "^\\d{4}$"@
}

/// The pattern of a word that has the shape of a day: one or two digits.
pub open spec fn day_pattern() -> Seq<char> {
    "^\\d\\d?$"@
}

/// The pattern of what separates the words of a query.
pub open spec fn separator_pattern() -> Seq<char> {
    "[^a-zA-Z0-9']+"@
}

/// Whether a text matches the year pattern.
pub open spec fn has_year_shape(s: Seq<char>) -> bool {
    regex_matches(year_pattern(), s)
}

/// Whether a text matches the day pattern.
pub open spec fn has_day_shape(s: Seq<char>) -> bool {
    regex_matches(day_pattern(), s)
}

pub open spec fn is_word_char(c: char) -> bool {
    ('a' <= c && c <= 'z') || ('A' <= c && c <= 'Z') || ('0' <= c && c <= '9') || c == '\''
}

/// The pieces of a text between the matches of `[^a-zA-Z0-9']+`, which
/// are the longest runs of other characters: the runs of word characters,
/// with an empty piece where such a run of separators begins or ends the
/// text, and one empty piece for an empty text.
pub open spec fn query_words_of(s: Seq<char>) -> Seq<Seq<char>>
    decreases s.len(),
{
    if s.len() == 0 {
        seq![Seq::empty()]
    } else {
        let words = query_words_of(s.drop_last());
        let c = s.last();
        if is_word_char(c) {
            words.update(words.len() - 1, words.last().push(c))
        } else if s.len() >= 2 && !is_word_char(s[s.len() - 2]) {
            words
        } else {
            words.push(Seq::empty())
        }
    }
}

/// A text always has at least one piece, and every piece is made of word
/// characters.
pub proof fn lemma_query_words(s: Seq<char>)
    ensures
        query_words_of(s).len() >= 1,
        forall|i: int, j: int|
            0 <= i < query_words_of(s).len() && 0 <= j < query_words_of(s)[i].len() ==> is_word_char(
                #[trigger] query_words_of(s)[i][j],
            ),
    decreases s.len(),
{
    if s.len() > 0 {
        let prev = s.drop_last();
        lemma_query_words(prev);
        let words = query_words_of(prev);
        let c = s.last();
        if is_word_char(c) {
            let w = query_words_of(s);
            assert forall|i: int, j: int| 0 <= i < w.len() && 0 <= j < w[i].len() implies is_word_char(
                #[trigger] w[i][j],
            ) by {
                if i == w.len() - 1 {
                    if j < words.last().len() {
                        assert(w[i][j] == words[i][j]);
                    }
                } else {
                    assert(w[i] == words[i]);
                }
            }
        } else if s.len() >= 2 && !is_word_char(s[s.len() - 2]) {
        } else {
            let w = query_words_of(s);
            assert forall|i: int, j: int| 0 <= i < w.len() && 0 <= j < w[i].len() implies is_word_char(
                #[trigger] w[i][j],
            ) by {
                assert(i < words.len());
                assert(w[i] == words[i]);
            }
        }
    }
}

pub open spec fn ascii_lower_char(c: char) -> char {
    if 'A' <= c && c <= 'Z' {
        ((c as u32) + 32) as char
    } else {
        c
    }
}

pub open spec fn ascii_lowercase(s: Seq<char>) -> Seq<char> {
    s.map_values(|c: char| ascii_lower_char(c))
}

// ---------------------------------------------------------------------------
// Calls into the outside crates.

/// Lower-cases a text with `smol_str::StrExt::to_lowercase_smolstr`. What it
/// gives on any text is left to the name `lowercase_of` (on short texts it
/// lowers character by character, so it need not agree with
/// `str::to_lowercase` on a final capital sigma); on ASCII text it maps
/// `A`..`Z` to `a`..`z` and keeps every other character.
#[verifier::external_body]
fn lowercase(s: &str) -> (r: String)
    ensures
        r@ == lowercase_of(s@),
        is_ascii_text(s@) ==> r@ == ascii_lowercase(s@),
{
    s.to_lowercase_smolstr().to_string()
}

/// Whether a word has the shape of a year (`^\d{4}$`, by `regex`). On
/// ASCII text that is "exactly four ASCII digits".
fn year_shape_matches(s: &str) -> (r: bool)
    ensures
        r == has_year_shape(s@),
        is_ascii_text(s@) ==> (r <==> (s@.len() == 4 && all_ascii_digits(s@))),
{
    let pattern = "^\\d{4}$";
    let compiled = regex_is_valid(pattern);
    assert(compiled);
    regex_is_match(pattern, s)
}

/// Whether a word has the shape of a day (`^\d\d?$`, by `regex`). On ASCII
/// text that is "one or two ASCII digits".
fn day_shape_matches(s: &str) -> (r: bool)
    ensures
        r == has_day_shape(s@),
        is_ascii_text(s@) ==> (r <==> (1 <= s@.len() <= 2 && all_ascii_digits(s@))),
{
    let pattern = "^\\d\\d?$";
    let compiled = regex_is_valid(pattern);
    assert(compiled);
    regex_is_match(pattern, s)
}

/// Cuts a query into its words, at the matches of `[^a-zA-Z0-9']+`
/// (by `regex`): the pieces `query_words_of` says.
fn split_query(q: &str) -> (r: Vec<String>)
    ensures
        r@.len() == query_words_of(q@).len(),
        forall|i: int| 0 <= i < r@.len() ==> #[trigger] r@[i]@ == query_words_of(q@)[i],
{
    let pattern = "[^a-zA-Z0-9']+";
    let compiled = regex_is_valid(pattern);
    assert(compiled);
    regex_split(pattern, q)
}

// ---------------------------------------------------------------------------
// Parsing one word.

impl Month {
    /// The month a lower-cased word names.
    pub fn from_lowercase(l: &str) -> (r: Result<Month, ()>)
        ensures
            r == month_named(l@),
    {
        if str_equals(l, "1") || str_equals(l, "01") || str_equals(l, "jan") || str_equals(l, "january") {
            Ok(Month::January)
        } else if str_equals(l, "2") || str_equals(l, "02") || str_equals(l, "feb") || str_equals(l, "february") {
            Ok(Month::February)
        } else if str_equals(l, "3") || str_equals(l, "03") || str_equals(l, "mar") || str_equals(l, "march") {
            Ok(Month::March)
        } else if str_equals(l, "4") || str_equals(l, "04") || str_equals(l, "apr") || str_equals(l, "april") {
            Ok(Month::April)
        } else if str_equals(l, "5") || str_equals(l, "05") || str_equals(l, "may") {
            Ok(Month::May)
        } else if str_equals(l, "6") || str_equals(l, "06") || str_equals(l, "jun") || str_equals(l, "june") {
            Ok(Month::June)
        } else if str_equals(l, "7") || str_equals(l, "07") || str_equals(l, "jul") || str_equals(l, "july") {
            Ok(Month::July)
        } else if str_equals(l, "8") || str_equals(l, "08") || str_equals(l, "aug") || str_equals(l, "august") {
            Ok(Month::August)
        } else if str_equals(l, "9") || str_equals(l, "09") || str_equals(l, "sep") || str_equals(l, "sept")
            || str_equals(l, "september") {
            Ok(Month::September)
        } else if str_equals(l, "10") || str_equals(l, "oct") || str_equals(l, "october") {
            Ok(Month::October)
        } else if str_equals(l, "11") || str_equals(l, "nov") || str_equals(l, "november") {
            Ok(Month::November)
        } else if str_equals(l, "12") || str_equals(l, "dec") || str_equals(l, "december") {
            Ok(Month::December)
        } else {
            Err(())
        }
    }

    /// The month a word names, in any case: `"Jan"`, `"JANUARY"` and `"01"`
    /// all name January.
    pub fn from_str(s: &str) -> (r: Result<Month, ()>)
        ensures
            r == month_named(lowercase_of(s@)),
            is_ascii_text(s@) ==> r == month_named(ascii_lowercase(s@)),
    {
        let lower = lowercase(s);
        Month::from_lowercase(lower.as_str())
    }
}

impl Year {
    /// The year a word stands for, given whether the word has the shape of
    /// a year. A word of that shape must be a number that `u32` can hold.
    pub fn from_shape(s: &str, matched: bool) -> (r: Result<Year, ()>)
        requires
            matched ==> u32_text_value(s@) is Some,
        ensures
            r == year_from_shape(s@, matched),
    {
        if !matched {
            return Err(());
        }
        let year = parse_u32(s).unwrap();
        if year < 1980 {
            return Err(());
        }
        if year > 2040 {
            return Err(());
        }
        Ok(Year(year))
    }

    /// The year a word stands for: four digits making a number in
    /// 1980..=2040.
    pub fn from_str(s: &str) -> (r: Result<Year, ()>)
        requires
            has_year_shape(s@) ==> u32_text_value(s@) is Some,
        ensures
            r == year_from_shape(s@, has_year_shape(s@)),
            is_ascii_text(s@) ==> r == year_from_shape(s@, s@.len() == 4 && all_ascii_digits(s@)),
    {
        let matched = year_shape_matches(s);
        Year::from_shape(s, matched)
    }

    /// The year a word stands for, where `from_str` can read the word:
    /// `None` for a word of the shape of a year (four Unicode digits) that
    /// `u32::from_str` does not read, such as one written in other digits.
    pub fn from_word(s: &str) -> (r: Option<Result<Year, ()>>)
        ensures
            r is None <==> has_year_shape(s@) && u32_text_value(s@) is None,
            r matches Some(y) ==> y == year_from_shape(s@, has_year_shape(s@)),
    {
        if year_shape_matches(s) && parse_u32(s).is_none() {
            None
        } else {
            Some(Year::from_str(s))
        }
    }
}

impl DayOfMonth {
    /// The day of the month a word stands for, given whether the word has
    /// the shape of a day. A word of that shape must be a number that `u32`
    /// can hold.
    pub fn from_shape(s: &str, matched: bool) -> (r: Result<DayOfMonth, ()>)
        requires
            matched ==> u32_text_value(s@) is Some,
        ensures
            r == day_from_shape(s@, matched),
    {
        if !matched {
            return Err(());
        }
        let day = parse_u32(s).unwrap();
        if day < 1 {
            return Err(());
        }
        if day > 31 {
            return Err(());
        }
        Ok(DayOfMonth(day))
    }

    /// The day of the month a word stands for: one or two digits making a
    /// number in 1..=31.
    pub fn from_str(s: &str) -> (r: Result<DayOfMonth, ()>)
        requires
            has_day_shape(s@) ==> u32_text_value(s@) is Some,
        ensures
            r == day_from_shape(s@, has_day_shape(s@)),
            is_ascii_text(s@) ==> r == day_from_shape(s@, 1 <= s@.len() <= 2 && all_ascii_digits(s@)),
    {
        let matched = day_shape_matches(s);
        DayOfMonth::from_shape(s, matched)
    }

    /// The day of the month a word stands for, where `from_str` can read the
    /// word: `None` for a word of the shape of a day (one or two Unicode
    /// digits) that `u32::from_str` does not read.
    pub fn from_word(s: &str) -> (r: Option<Result<DayOfMonth, ()>>)
        ensures
            r is None <==> has_day_shape(s@) && u32_text_value(s@) is None,
            r matches Some(d) ==> d == day_from_shape(s@, has_day_shape(s@)),
    {
        if day_shape_matches(s) && parse_u32(s).is_none() {
            None
        } else {
            Some(DayOfMonth::from_str(s))
        }
    }
}

// ---------------------------------------------------------------------------
// Combining the words into dates.

/// The dates made of month `m`, day `d` and each year of `years` whose word
/// is neither the month's nor the day's.
pub open spec fn mdy_dates_for(
    m: (usize, Month),
    d: (usize, DayOfMonth),
    years: Seq<(usize, Year)>,
) -> Seq<ShowDate>
    decreases years.len(),
{
    if years.len() == 0 {
        Seq::empty()
    } else {
        let prev = mdy_dates_for(m, d, years.drop_last());
        let y = years.last();
        if y.0 != m.0 && y.0 != d.0 {
            prev.push(ShowDate::MonthAndDayAndYear { month: m.1, day: d.1, year: y.1 })
        } else {
            prev
        }
    }
}

/// The full dates made with month `m`, in the order of `days`, then `years`.
pub open spec fn mdy_dates_for_month(
    m: (usize, Month),
    days: Seq<(usize, DayOfMonth)>,
    years: Seq<(usize, Year)>,
) -> Seq<ShowDate>
    decreases days.len(),
{
    if days.len() == 0 {
        Seq::empty()
    } else {
        let d = days.last();
        mdy_dates_for_month(m, days.drop_last(), years) + if d.0 != m.0 {
            mdy_dates_for(m, d, years)
        } else {
            Seq::empty()
        }
    }
}

/// All full dates, month by month.
pub open spec fn all_mdy_dates(
    months: Seq<(usize, Month)>,
    days: Seq<(usize, DayOfMonth)>,
    years: Seq<(usize, Year)>,
) -> Seq<ShowDate>
    decreases months.len(),
{
    if months.len() == 0 {
        Seq::empty()
    } else {
        all_mdy_dates(months.drop_last(), days, years) + mdy_dates_for_month(months.last(), days, years)
    }
}

/// The month-and-day dates made with month `m`.
pub open spec fn md_dates_for_month(m: (usize, Month), days: Seq<(usize, DayOfMonth)>) -> Seq<ShowDate>
    decreases days.len(),
{
    if days.len() == 0 {
        Seq::empty()
    } else {
        let prev = md_dates_for_month(m, days.drop_last());
        let d = days.last();
        if d.0 != m.0 {
            prev.push(ShowDate::MonthAndDay { month: m.1, day: d.1 })
        } else {
            prev
        }
    }
}

pub open spec fn all_md_dates(months: Seq<(usize, Month)>, days: Seq<(usize, DayOfMonth)>) -> Seq<ShowDate>
    decreases months.len(),
{
    if months.len() == 0 {
        Seq::empty()
    } else {
        all_md_dates(months.drop_last(), days) + md_dates_for_month(months.last(), days)
    }
}

/// The month-and-year dates made with month `m`.
pub open spec fn my_dates_for_month(m: (usize, Month), years: Seq<(usize, Year)>) -> Seq<ShowDate>
    decreases years.len(),
{
    if years.len() == 0 {
        Seq::empty()
    } else {
        let prev = my_dates_for_month(m, years.drop_last());
        let y = years.last();
        if y.0 != m.0 {
            prev.push(ShowDate::MonthAndYear { month: m.1, year: y.1 })
        } else {
            prev
        }
    }
}

pub open spec fn all_my_dates(months: Seq<(usize, Month)>, years: Seq<(usize, Year)>) -> Seq<ShowDate>
    decreases months.len(),
{
    if months.len() == 0 {
        Seq::empty()
    } else {
        all_my_dates(months.drop_last(), years) + my_dates_for_month(months.last(), years)
    }
}

/// The dates that words can mean: the full dates if there is any, else
/// the month-and-day dates followed by the month-and-year dates.
pub open spec fn show_dates_for(
    months: Seq<(usize, Month)>,
    days: Seq<(usize, DayOfMonth)>,
    years: Seq<(usize, Year)>,
) -> Seq<ShowDate> {
    let full = all_mdy_dates(months, days, years);
    if full.len() > 0 {
        full
    } else {
        all_md_dates(months, days) + all_my_dates(months, years)
    }
}

// ---------------------------------------------------------------------------
// A small inline list of dates.

/// A list of show dates kept in a `smallvec::SmallVec` with room for four
/// dates inline.
#[verifier::external_body]
pub struct ShowDates {
    inner: SmallVec<[ShowDate; 4]>,
}

/// The dates a `ShowDates` holds, in order.
pub uninterp spec fn show_dates_of(v: ShowDates) -> Seq<ShowDate>;

impl ShowDates {
    /// An empty list, made with `SmallVec::new`.
    #[verifier::external_body]
    pub(crate) fn new() -> (r: ShowDates)
        ensures
            show_dates_of(r) == Seq::<ShowDate>::empty(),
    {
        ShowDates { inner: SmallVec::new() }
    }

    /// Appends a date with `SmallVec::push`.
    #[verifier::external_body]
    pub(crate) fn push(&mut self, d: ShowDate)
        ensures
            show_dates_of(*final(self)) == show_dates_of(*old(self)).push(d),
    {
        self.inner.push(d)
    }

    /// Whether the list is empty, by `SmallVec::is_empty`.
    #[verifier::external_body]
    pub(crate) fn is_empty(&self) -> (r: bool)
        ensures
            r == (show_dates_of(*self).len() == 0),
    {
        self.inner.is_empty()
    }

    /// The dates moved into a `Vec`, by `SmallVec::into_vec`.
    #[verifier::external_body]
    pub fn into_vec(self) -> (r: Vec<ShowDate>)
        ensures
            r@ == show_dates_of(self),
    {
        self.inner.into_vec()
    }
}

/// Every date that the words of a query can mean. `months`, `days` and
/// `years` pair each word that names one with its position in the query; a
/// date never takes two of its parts from the same word.
pub fn get_all_show_dates(
    months: &[(usize, Month)],
    days: &[(usize, DayOfMonth)],
    years: &[(usize, Year)],
) -> (r: ShowDates)
    ensures
        show_dates_of(r) == show_dates_for(months@, days@, years@),
{
    let mut ret = ShowDates::new();
    let mut i: usize = 0;
    while i < months.len()
        invariant
            0 <= i <= months@.len(),
            show_dates_of(ret) == all_mdy_dates(months@.take(i as int), days@, years@),
        decreases months@.len() - i,
    {
        let (month_index, month) = months[i];
        let ghost before_month = show_dates_of(ret);
        let mut j: usize = 0;
        while j < days.len()
            invariant
                0 <= i < months@.len(),
                0 <= j <= days@.len(),
                (month_index, month) == months@[i as int],
                show_dates_of(ret) == before_month + mdy_dates_for_month(
                    months@[i as int],
                    days@.take(j as int),
                    years@,
                ),
            decreases days@.len() - j,
        {
            let (day_index, day) = days[j];
            let ghost before_day = show_dates_of(ret);
            if day_index != month_index {
                let mut k: usize = 0;
                while k < years.len()
                    invariant
                        0 <= j < days@.len(),
                        0 <= k <= years@.len(),
                        (month_index, month) == months@[i as int],
                        (day_index, day) == days@[j as int],
                        show_dates_of(ret) == before_day + mdy_dates_for(
                            months@[i as int],
                            days@[j as int],
                            years@.take(k as int),
                        ),
                    decreases years@.len() - k,
                {
                    let (year_index, year) = years[k];
                    if year_index != month_index && year_index != day_index {
                        ret.push(ShowDate::MonthAndDayAndYear { month, day, year });
                    }
                    assert(years@.take(k + 1).drop_last() == years@.take(k as int));
                    k += 1;
                }
                assert(years@.take(years@.len() as int) == years@);
            }
            assert(days@.take(j + 1).drop_last() == days@.take(j as int));
            j += 1;
        }
        assert(days@.take(days@.len() as int) == days@);
        assert(months@.take(i + 1).drop_last() == months@.take(i as int));
        i += 1;
    }
    assert(months@.take(months@.len() as int) == months@);
    if !ret.is_empty() {
        return ret;
    }
    let mut i: usize = 0;
    while i < months.len()
        invariant
            0 <= i <= months@.len(),
            show_dates_of(ret) == all_md_dates(months@.take(i as int), days@),
        decreases months@.len() - i,
    {
        let (month_index, month) = months[i];
        let ghost before_month = show_dates_of(ret);
        let mut j: usize = 0;
        while j < days.len()
            invariant
                0 <= i < months@.len(),
                0 <= j <= days@.len(),
                (month_index, month) == months@[i as int],
                show_dates_of(ret) == before_month + md_dates_for_month(
                    months@[i as int],
                    days@.take(j as int),
                ),
            decreases days@.len() - j,
        {
            let (day_index, day) = days[j];
            if day_index != month_index {
                ret.push(ShowDate::MonthAndDay { month, day });
            }
            assert(days@.take(j + 1).drop_last() == days@.take(j as int));
            j += 1;
        }
        assert(days@.take(days@.len() as int) == days@);
        assert(months@.take(i + 1).drop_last() == months@.take(i as int));
        i += 1;
    }
    assert(months@.take(months@.len() as int) == months@);
    let ghost md = show_dates_of(ret);
    let mut i: usize = 0;
    while i < months.len()
        invariant
            0 <= i <= months@.len(),
            show_dates_of(ret) == md + all_my_dates(months@.take(i as int), years@),
        decreases months@.len() - i,
    {
        let (month_index, month) = months[i];
        let ghost before_month = show_dates_of(ret);
        let mut k: usize = 0;
        while k < years.len()
            invariant
                0 <= i < months@.len(),
                0 <= k <= years@.len(),
                (month_index, month) == months@[i as int],
                show_dates_of(ret) == before_month + my_dates_for_month(
                    months@[i as int],
                    years@.take(k as int),
                ),
            decreases years@.len() - k,
        {
            let (year_index, year) = years[k];
            if year_index != month_index {
                ret.push(ShowDate::MonthAndYear { month, year });
            }
            assert(years@.take(k + 1).drop_last() == years@.take(k as int));
            k += 1;
        }
        assert(years@.take(years@.len() as int) == years@);
        assert(months@.take(i + 1).drop_last() == months@.take(i as int));
        i += 1;
    }
    assert(months@.take(months@.len() as int) == months@);
    ret
}

// ---------------------------------------------------------------------------
// From a query to its dates.

/// The words of a query that name a month, in any case, each with its
/// position. The words of a query are ASCII, so lower-casing them maps
/// `A`..`Z` to `a`..`z`.
pub open spec fn months_in(words: Seq<Seq<char>>) -> Seq<(usize, Month)>
    decreases words.len(),
{
    if words.len() == 0 {
        Seq::empty()
    } else {
        let prev = months_in(words.drop_last());
        match month_named(ascii_lowercase(words.last())) {
            Ok(m) => prev.push(((words.len() - 1) as usize, m)),
            Err(_) => prev,
        }
    }
}

/// The words of a query that stand for a year, each with its position: four
/// ASCII digits making a number in 1980..=2040.
pub open spec fn years_in(words: Seq<Seq<char>>) -> Seq<(usize, Year)>
    decreases words.len(),
{
    if words.len() == 0 {
        Seq::empty()
    } else {
        let prev = years_in(words.drop_last());
        let w = words.last();
        match year_from_shape(w, w.len() == 4 && all_ascii_digits(w)) {
            Ok(y) => prev.push(((words.len() - 1) as usize, y)),
            Err(_) => prev,
        }
    }
}

/// The words of a query that stand for a day of the month, each with its
/// position: one or two ASCII digits making a number in 1..=31.
pub open spec fn days_in(words: Seq<Seq<char>>) -> Seq<(usize, DayOfMonth)>
    decreases words.len(),
{
    if words.len() == 0 {
        Seq::empty()
    } else {
        let prev = days_in(words.drop_last());
        let w = words.last();
        match day_from_shape(w, 1 <= w.len() <= 2 && all_ascii_digits(w)) {
            Ok(d) => prev.push(((words.len() - 1) as usize, d)),
            Err(_) => prev,
        }
    }
}

/// The dates a query can mean.
pub open spec fn query_show_dates(q: Seq<char>) -> Seq<ShowDate> {
    let words = query_words_of(q);
    show_dates_for(months_in(words), days_in(words), years_in(words))
}

proof fn lemma_word_is_ascii(w: Seq<char>)
    requires
        forall|j: int| 0 <= j < w.len() ==> is_word_char(#[trigger] w[j]),
    ensures
        is_ascii_text(w),
{
    assert forall|j: int| 0 <= j < w.len() implies (#[trigger] w[j] as u32) < 128 by {
        assert(is_word_char(w[j]));
    }
}

/// Reads the dates out of a search query: the query is cut into words,
/// each word is read as a month, a day and a year where it can be, and the
/// readings are combined by `get_all_show_dates`.
pub fn show_dates_in_query(query: &str) -> (r: ShowDates)
    ensures
        show_dates_of(r) == query_show_dates(query@),
{
    let query_words = split_query(query);
    let ghost words = query_words_of(query@);
    proof {
        lemma_query_words(query@);
        assert forall|i: int, j: int|
            0 <= i < query_words@.len() && 0 <= j < query_words@[i]@.len() implies is_word_char(
            #[trigger] query_words@[i]@[j],
        ) by {
            assert(query_words@[i]@ == words[i]);
        }
    }
    let mut months: Vec<(usize, Month)> = Vec::new();
    let mut years: Vec<(usize, Year)> = Vec::new();
    let mut days: Vec<(usize, DayOfMonth)> = Vec::new();
    let mut index: usize = 0;
    while index < query_words.len()
        invariant
            0 <= index <= query_words@.len(),
            query_words@.len() == words.len(),
            forall|i: int| 0 <= i < query_words@.len() ==> #[trigger] query_words@[i]@ == words[i],
            forall|i: int, j: int|
                0 <= i < query_words@.len() && 0 <= j < query_words@[i]@.len() ==> is_word_char(
                    #[trigger] query_words@[i]@[j],
                ),
            months@ == months_in(words.take(index as int)),
            years@ == years_in(words.take(index as int)),
            days@ == days_in(words.take(index as int)),
        decreases query_words@.len() - index,
    {
        let query_word = query_words[index].as_str();
        let ghost w = words[index as int];
        assert(words.take(index + 1).drop_last() == words.take(index as int));
        assert(words.take(index + 1).last() == w);
        proof {
            assert forall|j: int| 0 <= j < w.len() implies is_word_char(#[trigger] w[j]) by {
                assert(is_word_char(query_words@[index as int]@[j]));
            }
            lemma_word_is_ascii(w);
        }
        match Month::from_str(query_word) {
            Ok(month) => months.push((index, month)),
            Err(_) => {},
        }
        // A word is ASCII, so a word of the shape of a year or a day is made of
        // ASCII digits and reads as a number.
        let year_shaped = year_shape_matches(query_word);
        if year_shaped {
            proof {
                lemma_digits_parse(w);
            }
        }
        match Year::from_shape(query_word, year_shaped) {
            Ok(year) => years.push((index, year)),
            Err(_) => {},
        }
        let day_shaped = day_shape_matches(query_word);
        if day_shaped {
            proof {
                lemma_digits_parse(w);
            }
        }
        match DayOfMonth::from_shape(query_word, day_shaped) {
            Ok(day) => days.push((index, day)),
            Err(_) => {},
        }
        index += 1;
    }
    assert(words.take(words.len() as int) == words);
    get_all_show_dates(months.as_slice(), days.as_slice(), years.as_slice())
}

// ---------------------------------------------------------------------------
// Laws of the date combination.

/// A date takes its parts from words at different positions of the query.
pub open spec fn from_distinct_words(
    dt: ShowDate,
    months: Seq<(usize, Month)>,
    days: Seq<(usize, DayOfMonth)>,
    years: Seq<(usize, Year)>,
) -> bool {
    match dt {
        ShowDate::MonthAndDayAndYear { month, day, year } => exists|a: int, b: int, c: int|
            0 <= a < months.len() && 0 <= b < days.len() && 0 <= c < years.len()
                && #[trigger] months[a].1 == month && #[trigger] days[b].1 == day
                && #[trigger] years[c].1 == year && months[a].0 != days[b].0
                && years[c].0 != months[a].0 && years[c].0 != days[b].0,
        ShowDate::MonthAndDay { month, day } => exists|a: int, b: int|
            0 <= a < months.len() && 0 <= b < days.len() && #[trigger] months[a].1 == month
                && #[trigger] days[b].1 == day && months[a].0 != days[b].0,
        ShowDate::MonthAndYear { month, year } => exists|a: int, c: int|
            0 <= a < months.len() && 0 <= c < years.len() && #[trigger] months[a].1 == month
                && #[trigger] years[c].1 == year && months[a].0 != years[c].0,
    }
}

proof fn lemma_mdy_for_sound(
    m: (usize, Month),
    d: (usize, DayOfMonth),
    years: Seq<(usize, Year)>,
)
    requires
        m.0 != d.0,
    ensures
        forall|i: int|
            0 <= i < mdy_dates_for(m, d, years).len() ==> exists|c: int|
                0 <= c < years.len() && years[c].0 != m.0 && years[c].0 != d.0
                    && #[trigger] mdy_dates_for(m, d, years)[i] == (ShowDate::MonthAndDayAndYear {
                    month: m.1,
                    day: d.1,
                    year: #[trigger] years[c].1,
                }),
    decreases years.len(),
{
    if years.len() > 0 {
        let ys = years.drop_last();
        lemma_mdy_for_sound(m, d, ys);
        let r = mdy_dates_for(m, d, years);
        let p = mdy_dates_for(m, d, ys);
        assert forall|i: int| 0 <= i < r.len() implies exists|c: int|
            0 <= c < years.len() && years[c].0 != m.0 && years[c].0 != d.0
                && #[trigger] r[i] == (ShowDate::MonthAndDayAndYear {
                month: m.1,
                day: d.1,
                year: #[trigger] years[c].1,
            }) by {
            if i < p.len() {
                let c = choose|c: int|
                    0 <= c < ys.len() && ys[c].0 != m.0 && ys[c].0 != d.0 && #[trigger] p[i] == (
                    ShowDate::MonthAndDayAndYear { month: m.1, day: d.1, year: #[trigger] ys[c].1 });
                assert(years[c] == ys[c]);
                assert(r[i] == p[i]);
            } else {
                assert(years[years.len() - 1] == years.last());
            }
        }
    }
}

proof fn lemma_mdy_for_month_sound(
    m: (usize, Month),
    days: Seq<(usize, DayOfMonth)>,
    years: Seq<(usize, Year)>,
)
    ensures
        forall|i: int|
            0 <= i < mdy_dates_for_month(m, days, years).len() ==> exists|b: int, c: int|
                0 <= b < days.len() && 0 <= c < years.len() && m.0 != days[b].0 && years[c].0 != m.0
                    && years[c].0 != days[b].0 && #[trigger] mdy_dates_for_month(m, days, years)[i]
                    == (ShowDate::MonthAndDayAndYear {
                    month: m.1,
                    day: #[trigger] days[b].1,
                    year: #[trigger] years[c].1,
                }),
    decreases days.len(),
{
    if days.len() > 0 {
        let ds = days.drop_last();
        let d = days.last();
        lemma_mdy_for_month_sound(m, ds, years);
        let r = mdy_dates_for_month(m, days, years);
        let p = mdy_dates_for_month(m, ds, years);
        let q = if d.0 != m.0 { mdy_dates_for(m, d, years) } else { Seq::empty() };
        assert(r == p + q);
        if d.0 != m.0 {
            lemma_mdy_for_sound(m, d, years);
        }
        assert forall|i: int| 0 <= i < r.len() implies exists|b: int, c: int|
            0 <= b < days.len() && 0 <= c < years.len() && m.0 != days[b].0 && years[c].0 != m.0
                && years[c].0 != days[b].0 && #[trigger] r[i] == (ShowDate::MonthAndDayAndYear {
                month: m.1,
                day: #[trigger] days[b].1,
                year: #[trigger] years[c].1,
            }) by {
            if i < p.len() {
                let (b, c) = choose|b: int, c: int|
                    0 <= b < ds.len() && 0 <= c < years.len() && m.0 != ds[b].0 && years[c].0 != m.0
                        && years[c].0 != ds[b].0 && #[trigger] p[i] == (
                    ShowDate::MonthAndDayAndYear {
                        month: m.1,
                        day: #[trigger] ds[b].1,
                        year: #[trigger] years[c].1,
                    });
                assert(days[b] == ds[b]);
                assert(r[i] == p[i]);
            } else {
                let k = i - p.len();
                assert(r[i] == q[k]);
                let c = choose|c: int|
                    0 <= c < years.len() && years[c].0 != m.0 && years[c].0 != d.0
                        && #[trigger] mdy_dates_for(m, d, years)[k] == (
                    ShowDate::MonthAndDayAndYear { month: m.1, day: d.1, year: #[trigger] years[c].1 });
                assert(days[days.len() - 1] == d);
            }
        }
    }
}

proof fn lemma_all_mdy_sound(
    months: Seq<(usize, Month)>,
    days: Seq<(usize, DayOfMonth)>,
    years: Seq<(usize, Year)>,
)
    ensures
        forall|i: int|
            0 <= i < all_mdy_dates(months, days, years).len() ==> {
                &&& #[trigger] all_mdy_dates(months, days, years)[i] is MonthAndDayAndYear
                &&& from_distinct_words(all_mdy_dates(months, days, years)[i], months, days, years)
            },
    decreases months.len(),
{
    if months.len() > 0 {
        let ms = months.drop_last();
        let m = months.last();
        lemma_all_mdy_sound(ms, days, years);
        lemma_mdy_for_month_sound(m, days, years);
        let r = all_mdy_dates(months, days, years);
        let p = all_mdy_dates(ms, days, years);
        let q = mdy_dates_for_month(m, days, years);
        assert(r == p + q);
        assert forall|i: int| 0 <= i < r.len() implies {
            &&& #[trigger] r[i] is MonthAndDayAndYear
            &&& from_distinct_words(r[i], months, days, years)
        } by {
            if i < p.len() {
                assert(r[i] == p[i]);
                assert(from_distinct_words(p[i], ms, days, years));
                let dt = p[i];
                if let ShowDate::MonthAndDayAndYear { month, day, year } = dt {
                    let (a, b, c) = choose|a: int, b: int, c: int|
                        0 <= a < ms.len() && 0 <= b < days.len() && 0 <= c < years.len()
                            && #[trigger] ms[a].1 == month && #[trigger] days[b].1 == day
                            && #[trigger] years[c].1 == year && ms[a].0 != days[b].0
                            && years[c].0 != ms[a].0 && years[c].0 != days[b].0;
                    assert(months[a] == ms[a]);
                }
            } else {
                let k = i - p.len();
                assert(r[i] == q[k]);
                let (b, c) = choose|b: int, c: int|
                    0 <= b < days.len() && 0 <= c < years.len() && m.0 != days[b].0 && years[c].0 != m.0
                        && years[c].0 != days[b].0 && #[trigger] q[k] == (
                    ShowDate::MonthAndDayAndYear {
                        month: m.1,
                        day: #[trigger] days[b].1,
                        year: #[trigger] years[c].1,
                    });
                assert(months[months.len() - 1] == m);
            }
        }
    }
}

proof fn lemma_md_for_month_sound(m: (usize, Month), days: Seq<(usize, DayOfMonth)>)
    ensures
        forall|i: int|
            0 <= i < md_dates_for_month(m, days).len() ==> exists|b: int|
                0 <= b < days.len() && m.0 != days[b].0 && #[trigger] md_dates_for_month(m, days)[i]
                    == (ShowDate::MonthAndDay { month: m.1, day: #[trigger] days[b].1 }),
    decreases days.len(),
{
    if days.len() > 0 {
        let ds = days.drop_last();
        lemma_md_for_month_sound(m, ds);
        let r = md_dates_for_month(m, days);
        let p = md_dates_for_month(m, ds);
        assert forall|i: int| 0 <= i < r.len() implies exists|b: int|
            0 <= b < days.len() && m.0 != days[b].0 && #[trigger] r[i] == (ShowDate::MonthAndDay {
                month: m.1,
                day: #[trigger] days[b].1,
            }) by {
            if i < p.len() {
                let b = choose|b: int|
                    0 <= b < ds.len() && m.0 != ds[b].0 && #[trigger] p[i] == (ShowDate::MonthAndDay {
                        month: m.1,
                        day: #[trigger] ds[b].1,
                    });
                assert(days[b] == ds[b]);
                assert(r[i] == p[i]);
            } else {
                assert(days[days.len() - 1] == days.last());
            }
        }
    }
}

proof fn lemma_all_md_sound(months: Seq<(usize, Month)>, days: Seq<(usize, DayOfMonth)>, years: Seq<(usize, Year)>)
    ensures
        forall|i: int|
            0 <= i < all_md_dates(months, days).len() ==> {
                &&& #[trigger] all_md_dates(months, days)[i] is MonthAndDay
                &&& from_distinct_words(all_md_dates(months, days)[i], months, days, years)
            },
    decreases months.len(),
{
    if months.len() > 0 {
        let ms = months.drop_last();
        let m = months.last();
        lemma_all_md_sound(ms, days, years);
        lemma_md_for_month_sound(m, days);
        let r = all_md_dates(months, days);
        let p = all_md_dates(ms, days);
        let q = md_dates_for_month(m, days);
        assert(r == p + q);
        assert forall|i: int| 0 <= i < r.len() implies {
            &&& #[trigger] r[i] is MonthAndDay
            &&& from_distinct_words(r[i], months, days, years)
        } by {
            if i < p.len() {
                assert(r[i] == p[i]);
                assert(from_distinct_words(p[i], ms, days, years));
                if let ShowDate::MonthAndDay { month, day } = p[i] {
                    let (a, b) = choose|a: int, b: int|
                        0 <= a < ms.len() && 0 <= b < days.len() && #[trigger] ms[a].1 == month
                            && #[trigger] days[b].1 == day && ms[a].0 != days[b].0;
                    assert(months[a] == ms[a]);
                }
            } else {
                let k = i - p.len();
                assert(r[i] == q[k]);
                let b = choose|b: int|
                    0 <= b < days.len() && m.0 != days[b].0 && #[trigger] q[k] == (ShowDate::MonthAndDay {
                        month: m.1,
                        day: #[trigger] days[b].1,
                    });
                assert(months[months.len() - 1] == m);
            }
        }
    }
}

proof fn lemma_my_for_month_sound(m: (usize, Month), years: Seq<(usize, Year)>)
    ensures
        forall|i: int|
            0 <= i < my_dates_for_month(m, years).len() ==> exists|c: int|
                0 <= c < years.len() && m.0 != years[c].0 && #[trigger] my_dates_for_month(m, years)[i]
                    == (ShowDate::MonthAndYear { month: m.1, year: #[trigger] years[c].1 }),
    decreases years.len(),
{
    if years.len() > 0 {
        let ys = years.drop_last();
        lemma_my_for_month_sound(m, ys);
        let r = my_dates_for_month(m, years);
        let p = my_dates_for_month(m, ys);
        assert forall|i: int| 0 <= i < r.len() implies exists|c: int|
            0 <= c < years.len() && m.0 != years[c].0 && #[trigger] r[i] == (ShowDate::MonthAndYear {
                month: m.1,
                year: #[trigger] years[c].1,
            }) by {
            if i < p.len() {
                let c = choose|c: int|
                    0 <= c < ys.len() && m.0 != ys[c].0 && #[trigger] p[i] == (ShowDate::MonthAndYear {
                        month: m.1,
                        year: #[trigger] ys[c].1,
                    });
                assert(years[c] == ys[c]);
                assert(r[i] == p[i]);
            } else {
                assert(years[years.len() - 1] == years.last());
            }
        }
    }
}

proof fn lemma_all_my_sound(months: Seq<(usize, Month)>, days: Seq<(usize, DayOfMonth)>, years: Seq<(usize, Year)>)
    ensures
        forall|i: int|
            0 <= i < all_my_dates(months, years).len() ==> {
                &&& #[trigger] all_my_dates(months, years)[i] is MonthAndYear
                &&& from_distinct_words(all_my_dates(months, years)[i], months, days, years)
            },
    decreases months.len(),
{
    if months.len() > 0 {
        let ms = months.drop_last();
        let m = months.last();
        lemma_all_my_sound(ms, days, years);
        lemma_my_for_month_sound(m, years);
        let r = all_my_dates(months, years);
        let p = all_my_dates(ms, years);
        let q = my_dates_for_month(m, years);
        assert(r == p + q);
        assert forall|i: int| 0 <= i < r.len() implies {
            &&& #[trigger] r[i] is MonthAndYear
            &&& from_distinct_words(r[i], months, days, years)
        } by {
            if i < p.len() {
                assert(r[i] == p[i]);
                assert(from_distinct_words(p[i], ms, days, years));
                if let ShowDate::MonthAndYear { month, year } = p[i] {
                    let (a, c) = choose|a: int, c: int|
                        0 <= a < ms.len() && 0 <= c < years.len() && #[trigger] ms[a].1 == month
                            && #[trigger] years[c].1 == year && ms[a].0 != years[c].0;
                    assert(months[a] == ms[a]);
                }
            } else {
                let k = i - p.len();
                assert(r[i] == q[k]);
                let c = choose|c: int|
                    0 <= c < years.len() && m.0 != years[c].0 && #[trigger] q[k] == (ShowDate::MonthAndYear {
                        month: m.1,
                        year: #[trigger] years[c].1,
                    });
                assert(months[months.len() - 1] == m);
            }
        }
    }
}

/// Every date that words can mean takes its month, day and year from
/// words at different positions; and either every date is a full date (when
/// any full date can be made) or none is.
pub proof fn law_show_dates_from_distinct_words(
    months: Seq<(usize, Month)>,
    days: Seq<(usize, DayOfMonth)>,
    years: Seq<(usize, Year)>,
)
    ensures
        forall|i: int|
            0 <= i < show_dates_for(months, days, years).len() ==> from_distinct_words(
                #[trigger] show_dates_for(months, days, years)[i],
                months,
                days,
                years,
            ),
        all_mdy_dates(months, days, years).len() > 0 ==> forall|i: int|
            0 <= i < show_dates_for(months, days, years).len()
                ==> #[trigger] show_dates_for(months, days, years)[i] is MonthAndDayAndYear,
        all_mdy_dates(months, days, years).len() == 0 ==> forall|i: int|
            0 <= i < show_dates_for(months, days, years).len()
                ==> !(#[trigger] show_dates_for(months, days, years)[i] is MonthAndDayAndYear),
{
    lemma_all_mdy_sound(months, days, years);
    lemma_all_md_sound(months, days, years);
    lemma_all_my_sound(months, days, years);
    let r = show_dates_for(months, days, years);
    if all_mdy_dates(months, days, years).len() == 0 {
        let p = all_md_dates(months, days);
        let q = all_my_dates(months, years);
        assert(r == p + q);
        assert forall|i: int| 0 <= i < r.len() implies from_distinct_words(#[trigger] r[i], months, days, years)
            && !(r[i] is MonthAndDayAndYear) by {
            if i < p.len() {
                assert(r[i] == p[i]);
            } else {
                assert(r[i] == q[i - p.len()]);
            }
        }
    }
}

proof fn lemma_mdy_for_complete(m: (usize, Month), d: (usize, DayOfMonth), years: Seq<(usize, Year)>, c: int)
    requires
        0 <= c < years.len(),
        years[c].0 != m.0,
        years[c].0 != d.0,
    ensures
        mdy_dates_for(m, d, years).contains(
            ShowDate::MonthAndDayAndYear { month: m.1, day: d.1, year: years[c].1 },
        ),
    decreases years.len(),
{
    let dt = ShowDate::MonthAndDayAndYear { month: m.1, day: d.1, year: years[c].1 };
    let r = mdy_dates_for(m, d, years);
    let ys = years.drop_last();
    if c < years.len() - 1 {
        lemma_mdy_for_complete(m, d, ys, c);
        let p = mdy_dates_for(m, d, ys);
        assert(ys[c] == years[c]);
        let k = choose|k: int| 0 <= k < p.len() && p[k] == dt;
        assert(r[k] == dt);
    } else {
        assert(years.last() == years[c]);
        assert(r[r.len() - 1] == dt);
    }
}

proof fn lemma_mdy_for_month_complete(
    m: (usize, Month),
    days: Seq<(usize, DayOfMonth)>,
    years: Seq<(usize, Year)>,
    b: int,
    c: int,
)
    requires
        0 <= b < days.len(),
        0 <= c < years.len(),
        days[b].0 != m.0,
        years[c].0 != m.0,
        years[c].0 != days[b].0,
    ensures
        mdy_dates_for_month(m, days, years).contains(
            ShowDate::MonthAndDayAndYear { month: m.1, day: days[b].1, year: years[c].1 },
        ),
    decreases days.len(),
{
    let dt = ShowDate::MonthAndDayAndYear { month: m.1, day: days[b].1, year: years[c].1 };
    let ds = days.drop_last();
    let d = days.last();
    let r = mdy_dates_for_month(m, days, years);
    let p = mdy_dates_for_month(m, ds, years);
    let q = if d.0 != m.0 { mdy_dates_for(m, d, years) } else { Seq::empty() };
    assert(r == p + q);
    if b < days.len() - 1 {
        assert(ds[b] == days[b]);
        lemma_mdy_for_month_complete(m, ds, years, b, c);
        let k = choose|k: int| 0 <= k < p.len() && p[k] == dt;
        assert(r[k] == dt);
    } else {
        assert(d == days[b]);
        lemma_mdy_for_complete(m, d, years, c);
        let k = choose|k: int| 0 <= k < q.len() && q[k] == dt;
        assert(r[p.len() + k] == dt);
    }
}

proof fn lemma_all_mdy_complete(
    months: Seq<(usize, Month)>,
    days: Seq<(usize, DayOfMonth)>,
    years: Seq<(usize, Year)>,
    a: int,
    b: int,
    c: int,
)
    requires
        0 <= a < months.len(),
        0 <= b < days.len(),
        0 <= c < years.len(),
        days[b].0 != months[a].0,
        years[c].0 != months[a].0,
        years[c].0 != days[b].0,
    ensures
        all_mdy_dates(months, days, years).contains(
            ShowDate::MonthAndDayAndYear { month: months[a].1, day: days[b].1, year: years[c].1 },
        ),
    decreases months.len(),
{
    let dt = ShowDate::MonthAndDayAndYear { month: months[a].1, day: days[b].1, year: years[c].1 };
    let ms = months.drop_last();
    let r = all_mdy_dates(months, days, years);
    let p = all_mdy_dates(ms, days, years);
    let q = mdy_dates_for_month(months.last(), days, years);
    assert(r == p + q);
    if a < months.len() - 1 {
        assert(ms[a] == months[a]);
        lemma_all_mdy_complete(ms, days, years, a, b, c);
        let k = choose|k: int| 0 <= k < p.len() && p[k] == dt;
        assert(r[k] == dt);
    } else {
        assert(months.last() == months[a]);
        lemma_mdy_for_month_complete(months[a], days, years, b, c);
        let k = choose|k: int| 0 <= k < q.len() && q[k] == dt;
        assert(r[p.len() + k] == dt);
    }
}

/// Whenever a month, a day and a year come from three different words,
/// the full date they make is among the dates the words can mean.
pub proof fn law_full_dates_complete(
    months: Seq<(usize, Month)>,
    days: Seq<(usize, DayOfMonth)>,
    years: Seq<(usize, Year)>,
    a: int,
    b: int,
    c: int,
)
    requires
        0 <= a < months.len(),
        0 <= b < days.len(),
        0 <= c < years.len(),
        days[b].0 != months[a].0,
        years[c].0 != months[a].0,
        years[c].0 != days[b].0,
    ensures
        show_dates_for(months, days, years).contains(
            ShowDate::MonthAndDayAndYear { month: months[a].1, day: days[b].1, year: years[c].1 },
        ),
{
    lemma_all_mdy_complete(months, days, years, a, b, c);
}

proof fn lemma_md_for_month_complete(m: (usize, Month), days: Seq<(usize, DayOfMonth)>, b: int)
    requires
        0 <= b < days.len(),
        days[b].0 != m.0,
    ensures
        md_dates_for_month(m, days).contains(ShowDate::MonthAndDay { month: m.1, day: days[b].1 }),
    decreases days.len(),
{
    let dt = ShowDate::MonthAndDay { month: m.1, day: days[b].1 };
    let r = md_dates_for_month(m, days);
    let ds = days.drop_last();
    if b < days.len() - 1 {
        assert(ds[b] == days[b]);
        lemma_md_for_month_complete(m, ds, b);
        let p = md_dates_for_month(m, ds);
        let k = choose|k: int| 0 <= k < p.len() && p[k] == dt;
        assert(r[k] == dt);
    } else {
        assert(days.last() == days[b]);
        assert(r[r.len() - 1] == dt);
    }
}

proof fn lemma_all_md_complete(months: Seq<(usize, Month)>, days: Seq<(usize, DayOfMonth)>, a: int, b: int)
    requires
        0 <= a < months.len(),
        0 <= b < days.len(),
        days[b].0 != months[a].0,
    ensures
        all_md_dates(months, days).contains(ShowDate::MonthAndDay { month: months[a].1, day: days[b].1 }),
    decreases months.len(),
{
    let dt = ShowDate::MonthAndDay { month: months[a].1, day: days[b].1 };
    let ms = months.drop_last();
    let r = all_md_dates(months, days);
    let p = all_md_dates(ms, days);
    let q = md_dates_for_month(months.last(), days);
    assert(r == p + q);
    if a < months.len() - 1 {
        assert(ms[a] == months[a]);
        lemma_all_md_complete(ms, days, a, b);
        let k = choose|k: int| 0 <= k < p.len() && p[k] == dt;
        assert(r[k] == dt);
    } else {
        assert(months.last() == months[a]);
        lemma_md_for_month_complete(months[a], days, b);
        let k = choose|k: int| 0 <= k < q.len() && q[k] == dt;
        assert(r[p.len() + k] == dt);
    }
}

proof fn lemma_my_for_month_complete(m: (usize, Month), years: Seq<(usize, Year)>, c: int)
    requires
        0 <= c < years.len(),
        years[c].0 != m.0,
    ensures
        my_dates_for_month(m, years).contains(ShowDate::MonthAndYear { month: m.1, year: years[c].1 }),
    decreases years.len(),
{
    let dt = ShowDate::MonthAndYear { month: m.1, year: years[c].1 };
    let r = my_dates_for_month(m, years);
    let ys = years.drop_last();
    if c < years.len() - 1 {
        assert(ys[c] == years[c]);
        lemma_my_for_month_complete(m, ys, c);
        let p = my_dates_for_month(m, ys);
        let k = choose|k: int| 0 <= k < p.len() && p[k] == dt;
        assert(r[k] == dt);
    } else {
        assert(years.last() == years[c]);
        assert(r[r.len() - 1] == dt);
    }
}

proof fn lemma_all_my_complete(months: Seq<(usize, Month)>, years: Seq<(usize, Year)>, a: int, c: int)
    requires
        0 <= a < months.len(),
        0 <= c < years.len(),
        years[c].0 != months[a].0,
    ensures
        all_my_dates(months, years).contains(ShowDate::MonthAndYear { month: months[a].1, year: years[c].1 }),
    decreases months.len(),
{
    let dt = ShowDate::MonthAndYear { month: months[a].1, year: years[c].1 };
    let ms = months.drop_last();
    let r = all_my_dates(months, years);
    let p = all_my_dates(ms, years);
    let q = my_dates_for_month(months.last(), years);
    assert(r == p + q);
    if a < months.len() - 1 {
        assert(ms[a] == months[a]);
        lemma_all_my_complete(ms, years, a, c);
        let k = choose|k: int| 0 <= k < p.len() && p[k] == dt;
        assert(r[k] == dt);
    } else {
        assert(months.last() == months[a]);
        lemma_my_for_month_complete(months[a], years, c);
        let k = choose|k: int| 0 <= k < q.len() && q[k] == dt;
        assert(r[p.len() + k] == dt);
    }
}

/// When no month, day and year come from three different words, the words
/// mean every month-and-day date and every month-and-year date whose parts
/// come from different words, whatever the order of the words.
pub proof fn law_partial_dates_complete(
    months: Seq<(usize, Month)>,
    days: Seq<(usize, DayOfMonth)>,
    years: Seq<(usize, Year)>,
)
    requires
        forall|x: int, y: int, z: int|
            0 <= x < months.len() && 0 <= y < days.len() && 0 <= z < years.len() ==> !(#[trigger] days[y].0
                != #[trigger] months[x].0 && #[trigger] years[z].0 != months[x].0 && years[z].0 != days[y].0),
    ensures
        forall|a: int, b: int|
            0 <= a < months.len() && 0 <= b < days.len() && days[b].0 != months[a].0 ==> show_dates_for(
                months,
                days,
                years,
            ).contains(ShowDate::MonthAndDay { month: #[trigger] months[a].1, day: #[trigger] days[b].1 }),
        forall|a: int, c: int|
            0 <= a < months.len() && 0 <= c < years.len() && years[c].0 != months[a].0 ==> show_dates_for(
                months,
                days,
                years,
            ).contains(ShowDate::MonthAndYear { month: #[trigger] months[a].1, year: #[trigger] years[c].1 }),
{
    let full = all_mdy_dates(months, days, years);
    lemma_all_mdy_sound(months, days, years);
    if full.len() > 0 {
        assert(full[0] is MonthAndDayAndYear);
        assert(from_distinct_words(full[0], months, days, years));
        let (x, y, z) = choose|x: int, y: int, z: int|
            0 <= x < months.len() && 0 <= y < days.len() && 0 <= z < years.len() && #[trigger] months[x].1
                == full[0]->MonthAndDayAndYear_month && #[trigger] days[y].1 == full[0]->MonthAndDayAndYear_day
                && #[trigger] years[z].1 == full[0]->MonthAndDayAndYear_year && months[x].0 != days[y].0
                && years[z].0 != months[x].0 && years[z].0 != days[y].0;
        assert(false);
    }
    let md = all_md_dates(months, days);
    let my = all_my_dates(months, years);
    assert(show_dates_for(months, days, years) == md + my);
    assert forall|a: int, b: int|
        0 <= a < months.len() && 0 <= b < days.len() && days[b].0 != months[a].0 implies show_dates_for(
        months,
        days,
        years,
    ).contains(ShowDate::MonthAndDay { month: #[trigger] months[a].1, day: #[trigger] days[b].1 }) by {
        lemma_all_md_complete(months, days, a, b);
        let k = choose|k: int| 0 <= k < md.len() && md[k] == ShowDate::MonthAndDay { month: months[a].1, day: days[b].1 };
        assert((md + my)[k] == md[k]);
    }
    assert forall|a: int, c: int|
        0 <= a < months.len() && 0 <= c < years.len() && years[c].0 != months[a].0 implies show_dates_for(
        months,
        days,
        years,
    ).contains(ShowDate::MonthAndYear { month: #[trigger] months[a].1, year: #[trigger] years[c].1 }) by {
        lemma_all_my_complete(months, years, a, c);
        let k = choose|k: int| 0 <= k < my.len() && my[k] == ShowDate::MonthAndYear { month: months[a].1, year: years[c].1 };
        assert((md + my)[md.len() + k] == my[k]);
    }
}

// ---------------------------------------------------------------------------
// The names of the months.

/// The English name of a month, in lower case.
pub open spec fn month_full_name(m: Month) -> Seq<char> {
    match m {
        Month::January => "january"@,
        Month::February => "february"@,
        Month::March => "march"@,
        Month::April => "april"@,
        Month::May => "may"@,
        Month::June => "june"@,
        Month::July => "july"@,
        Month::August => "august"@,
        Month::September => "september"@,
        Month::October => "october"@,
        Month::November => "november"@,
        Month::December => "december"@,
    }
}

/// The three-letter abbreviation of a month, in lower case.
pub open spec fn month_abbreviation(m: Month) -> Seq<char> {
    match m {
        Month::January => "jan"@,
        Month::February => "feb"@,
        Month::March => "mar"@,
        Month::April => "apr"@,
        Month::May => "may"@,
        Month::June => "jun"@,
        Month::July => "jul"@,
        Month::August => "aug"@,
        Month::September => "sep"@,
        Month::October => "oct"@,
        Month::November => "nov"@,
        Month::December => "dec"@,
    }
}

/// The number of a month, without a leading zero.
pub open spec fn month_number_text(m: Month) -> Seq<char> {
    match m {
        Month::January => "1"@,
        Month::February => "2"@,
        Month::March => "3"@,
        Month::April => "4"@,
        Month::May => "5"@,
        Month::June => "6"@,
        Month::July => "7"@,
        Month::August => "8"@,
        Month::September => "9"@,
        Month::October => "10"@,
        Month::November => "11"@,
        Month::December => "12"@,
    }
}

/// The number of a month written with two digits.
pub open spec fn month_padded_number_text(m: Month) -> Seq<char> {
    match m {
        Month::January => "01"@,
        Month::February => "02"@,
        Month::March => "03"@,
        Month::April => "04"@,
        Month::May => "05"@,
        Month::June => "06"@,
        Month::July => "07"@,
        Month::August => "08"@,
        Month::September => "09"@,
        Month::October => "10"@,
        Month::November => "11"@,
        Month::December => "12"@,
    }
}

proof fn lemma_month_names_january()
    ensures
        month_named(month_full_name(Month::January)) == Ok::<Month, ()>(Month::January),
        month_named(month_abbreviation(Month::January)) == Ok::<Month, ()>(Month::January),
        month_named(month_number_text(Month::January)) == Ok::<Month, ()>(Month::January),
        month_named(month_padded_number_text(Month::January)) == Ok::<Month, ()>(Month::January),
{
    reveal_strlit("01");
    reveal_strlit("1");
    reveal_strlit("jan");
    reveal_strlit("january");

}

proof fn lemma_month_names_february()
    ensures
        month_named(month_full_name(Month::February)) == Ok::<Month, ()>(Month::February),
        month_named(month_abbreviation(Month::February)) == Ok::<Month, ()>(Month::February),
        month_named(month_number_text(Month::February)) == Ok::<Month, ()>(Month::February),
        month_named(month_padded_number_text(Month::February)) == Ok::<Month, ()>(Month::February),
{
    reveal_strlit("01");
    reveal_strlit("02");
    reveal_strlit("1");
    reveal_strlit("2");
    reveal_strlit("feb");
    reveal_strlit("february");
    reveal_strlit("jan");
    reveal_strlit("january");
    assert("02"@[1] != "01"@[1]);
    assert("2"@[0] != "1"@[0]);
    assert("feb"@[0] != "jan"@[0]);
    assert("02"@.len() != "1"@.len());
    assert("02"@.len() != "jan"@.len());
    assert("02"@.len() != "january"@.len());
    assert("2"@.len() != "01"@.len());
    assert("2"@.len() != "jan"@.len());
    assert("2"@.len() != "january"@.len());
    assert("feb"@.len() != "1"@.len());
    assert("feb"@.len() != "01"@.len());
    assert("feb"@.len() != "january"@.len());
    assert("february"@.len() != "1"@.len());
    assert("february"@.len() != "01"@.len());
    assert("february"@.len() != "jan"@.len());
    assert("february"@.len() != "january"@.len());
}

proof fn lemma_month_names_march()
    ensures
        month_named(month_full_name(Month::March)) == Ok::<Month, ()>(Month::March),
        month_named(month_abbreviation(Month::March)) == Ok::<Month, ()>(Month::March),
        month_named(month_number_text(Month::March)) == Ok::<Month, ()>(Month::March),
        month_named(month_padded_number_text(Month::March)) == Ok::<Month, ()>(Month::March),
{
    reveal_strlit("01");
    reveal_strlit("02");
    reveal_strlit("03");
    reveal_strlit("1");
    reveal_strlit("2");
    reveal_strlit("3");
    reveal_strlit("feb");
    reveal_strlit("february");
    reveal_strlit("jan");
    reveal_strlit("january");
    reveal_strlit("mar");
    reveal_strlit("march");
    assert("mar"@[0] != "jan"@[0]);
    assert("mar"@[0] != "feb"@[0]);
    assert("03"@[1] != "01"@[1]);
    assert("03"@[1] != "02"@[1]);
    assert("3"@[0] != "1"@[0]);
    assert("3"@[0] != "2"@[0]);
    assert("03"@.len() != "1"@.len());
    assert("03"@.len() != "jan"@.len());
    assert("03"@.len() != "january"@.len());
    assert("03"@.len() != "2"@.len());
    assert("03"@.len() != "feb"@.len());
    assert("03"@.len() != "february"@.len());
    assert("3"@.len() != "01"@.len());
    assert("3"@.len() != "jan"@.len());
    assert("3"@.len() != "january"@.len());
    assert("3"@.len() != "02"@.len());
    assert("3"@.len() != "feb"@.len());
    assert("3"@.len() != "february"@.len());
    assert("mar"@.len() != "1"@.len());
    assert("mar"@.len() != "01"@.len());
    assert("mar"@.len() != "january"@.len());
    assert("mar"@.len() != "2"@.len());
    assert("mar"@.len() != "02"@.len());
    assert("mar"@.len() != "february"@.len());
    assert("march"@.len() != "1"@.len());
    assert("march"@.len() != "01"@.len());
    assert("march"@.len() != "jan"@.len());
    assert("march"@.len() != "january"@.len());
    assert("march"@.len() != "2"@.len());
    assert("march"@.len() != "02"@.len());
    assert("march"@.len() != "feb"@.len());
    assert("march"@.len() != "february"@.len());
}

proof fn lemma_month_names_april()
    ensures
        month_named(month_full_name(Month::April)) == Ok::<Month, ()>(Month::April),
        month_named(month_abbreviation(Month::April)) == Ok::<Month, ()>(Month::April),
        month_named(month_number_text(Month::April)) == Ok::<Month, ()>(Month::April),
        month_named(month_padded_number_text(Month::April)) == Ok::<Month, ()>(Month::April),
{
    reveal_strlit("01");
    reveal_strlit("02");
    reveal_strlit("03");
    reveal_strlit("04");
    reveal_strlit("1");
    reveal_strlit("2");
    reveal_strlit("3");
    reveal_strlit("4");
    reveal_strlit("apr");
    reveal_strlit("april");
    reveal_strlit("feb");
    reveal_strlit("february");
    reveal_strlit("jan");
    reveal_strlit("january");
    reveal_strlit("mar");
    reveal_strlit("march");
    assert("apr"@[0] != "jan"@[0]);
    assert("apr"@[0] != "feb"@[0]);
    assert("apr"@[0] != "mar"@[0]);
    assert("april"@[0] != "march"@[0]);
    assert("04"@[1] != "01"@[1]);
    assert("04"@[1] != "02"@[1]);
    assert("04"@[1] != "03"@[1]);
    assert("4"@[0] != "1"@[0]);
    assert("4"@[0] != "2"@[0]);
    assert("4"@[0] != "3"@[0]);
    assert("04"@.len() != "1"@.len());
    assert("04"@.len() != "jan"@.len());
    assert("04"@.len() != "january"@.len());
    assert("04"@.len() != "2"@.len());
    assert("04"@.len() != "feb"@.len());
    assert("04"@.len() != "february"@.len());
    assert("04"@.len() != "3"@.len());
    assert("04"@.len() != "mar"@.len());
    assert("04"@.len() != "march"@.len());
    assert("4"@.len() != "01"@.len());
    assert("4"@.len() != "jan"@.len());
    assert("4"@.len() != "january"@.len());
    assert("4"@.len() != "02"@.len());
    assert("4"@.len() != "feb"@.len());
    assert("4"@.len() != "february"@.len());
    assert("4"@.len() != "03"@.len());
    assert("4"@.len() != "mar"@.len());
    assert("4"@.len() != "march"@.len());
    assert("apr"@.len() != "1"@.len());
    assert("apr"@.len() != "01"@.len());
    assert("apr"@.len() != "january"@.len());
    assert("apr"@.len() != "2"@.len());
    assert("apr"@.len() != "02"@.len());
    assert("apr"@.len() != "february"@.len());
    assert("apr"@.len() != "3"@.len());
    assert("apr"@.len() != "03"@.len());
    assert("apr"@.len() != "march"@.len());
    assert("april"@.len() != "1"@.len());
    assert("april"@.len() != "01"@.len());
    assert("april"@.len() != "jan"@.len());
    assert("april"@.len() != "january"@.len());
    assert("april"@.len() != "2"@.len());
    assert("april"@.len() != "02"@.len());
    assert("april"@.len() != "feb"@.len());
    assert("april"@.len() != "february"@.len());
    assert("april"@.len() != "3"@.len());
    assert("april"@.len() != "03"@.len());
    assert("april"@.len() != "mar"@.len());
}

proof fn lemma_month_names_may()
    ensures
        month_named(month_full_name(Month::May)) == Ok::<Month, ()>(Month::May),
        month_named(month_abbreviation(Month::May)) == Ok::<Month, ()>(Month::May),
        month_named(month_number_text(Month::May)) == Ok::<Month, ()>(Month::May),
        month_named(month_padded_number_text(Month::May)) == Ok::<Month, ()>(Month::May),
{
    reveal_strlit("01");
    reveal_strlit("02");
    reveal_strlit("03");
    reveal_strlit("04");
    reveal_strlit("05");
    reveal_strlit("1");
    reveal_strlit("2");
    reveal_strlit("3");
    reveal_strlit("4");
    reveal_strlit("5");
    reveal_strlit("apr");
    reveal_strlit("april");
    reveal_strlit("feb");
    reveal_strlit("february");
    reveal_strlit("jan");
    reveal_strlit("january");
    reveal_strlit("mar");
    reveal_strlit("march");
    reveal_strlit("may");
    assert("05"@[1] != "01"@[1]);
    assert("05"@[1] != "02"@[1]);
    assert("05"@[1] != "03"@[1]);
    assert("05"@[1] != "04"@[1]);
    assert("5"@[0] != "1"@[0]);
    assert("5"@[0] != "2"@[0]);
    assert("5"@[0] != "3"@[0]);
    assert("5"@[0] != "4"@[0]);
    assert("may"@[0] != "jan"@[0]);
    assert("may"@[0] != "feb"@[0]);
    assert("may"@[2] != "mar"@[2]);
    assert("may"@[0] != "apr"@[0]);
    assert("05"@.len() != "1"@.len());
    assert("05"@.len() != "jan"@.len());
    assert("05"@.len() != "january"@.len());
    assert("05"@.len() != "2"@.len());
    assert("05"@.len() != "feb"@.len());
    assert("05"@.len() != "february"@.len());
    assert("05"@.len() != "3"@.len());
    assert("05"@.len() != "mar"@.len());
    assert("05"@.len() != "march"@.len());
    assert("05"@.len() != "4"@.len());
    assert("05"@.len() != "apr"@.len());
    assert("05"@.len() != "april"@.len());
    assert("5"@.len() != "01"@.len());
    assert("5"@.len() != "jan"@.len());
    assert("5"@.len() != "january"@.len());
    assert("5"@.len() != "02"@.len());
    assert("5"@.len() != "feb"@.len());
    assert("5"@.len() != "february"@.len());
    assert("5"@.len() != "03"@.len());
    assert("5"@.len() != "mar"@.len());
    assert("5"@.len() != "march"@.len());
    assert("5"@.len() != "04"@.len());
    assert("5"@.len() != "apr"@.len());
    assert("5"@.len() != "april"@.len());
    assert("may"@.len() != "1"@.len());
    assert("may"@.len() != "01"@.len());
    assert("may"@.len() != "january"@.len());
    assert("may"@.len() != "2"@.len());
    assert("may"@.len() != "02"@.len());
    assert("may"@.len() != "february"@.len());
    assert("may"@.len() != "3"@.len());
    assert("may"@.len() != "03"@.len());
    assert("may"@.len() != "march"@.len());
    assert("may"@.len() != "4"@.len());
    assert("may"@.len() != "04"@.len());
    assert("may"@.len() != "april"@.len());
}

proof fn lemma_month_names_june()
    ensures
        month_named(month_full_name(Month::June)) == Ok::<Month, ()>(Month::June),
        month_named(month_abbreviation(Month::June)) == Ok::<Month, ()>(Month::June),
        month_named(month_number_text(Month::June)) == Ok::<Month, ()>(Month::June),
        month_named(month_padded_number_text(Month::June)) == Ok::<Month, ()>(Month::June),
{
    reveal_strlit("01");
    reveal_strlit("02");
    reveal_strlit("03");
    reveal_strlit("04");
    reveal_strlit("05");
    reveal_strlit("06");
    reveal_strlit("1");
    reveal_strlit("2");
    reveal_strlit("3");
    reveal_strlit("4");
    reveal_strlit("5");
    reveal_strlit("6");
    reveal_strlit("apr");
    reveal_strlit("april");
    reveal_strlit("feb");
    reveal_strlit("february");
    reveal_strlit("jan");
    reveal_strlit("january");
    reveal_strlit("jun");
    reveal_strlit("june");
    reveal_strlit("mar");
    reveal_strlit("march");
    reveal_strlit("may");
    assert("jun"@[1] != "jan"@[1]);
    assert("jun"@[0] != "feb"@[0]);
    assert("jun"@[0] != "mar"@[0]);
    assert("jun"@[0] != "apr"@[0]);
    assert("jun"@[0] != "may"@[0]);
    assert("06"@[1] != "01"@[1]);
    assert("06"@[1] != "02"@[1]);
    assert("06"@[1] != "03"@[1]);
    assert("06"@[1] != "04"@[1]);
    assert("06"@[1] != "05"@[1]);
    assert("6"@[0] != "1"@[0]);
    assert("6"@[0] != "2"@[0]);
    assert("6"@[0] != "3"@[0]);
    assert("6"@[0] != "4"@[0]);
    assert("6"@[0] != "5"@[0]);
    assert("06"@.len() != "1"@.len());
    assert("06"@.len() != "jan"@.len());
    assert("06"@.len() != "january"@.len());
    assert("06"@.len() != "2"@.len());
    assert("06"@.len() != "feb"@.len());
    assert("06"@.len() != "february"@.len());
    assert("06"@.len() != "3"@.len());
    assert("06"@.len() != "mar"@.len());
    assert("06"@.len() != "march"@.len());
    assert("06"@.len() != "4"@.len());
    assert("06"@.len() != "apr"@.len());
    assert("06"@.len() != "april"@.len());
    assert("06"@.len() != "5"@.len());
    assert("06"@.len() != "may"@.len());
    assert("6"@.len() != "01"@.len());
    assert("6"@.len() != "jan"@.len());
    assert("6"@.len() != "january"@.len());
    assert("6"@.len() != "02"@.len());
    assert("6"@.len() != "feb"@.len());
    assert("6"@.len() != "february"@.len());
    assert("6"@.len() != "03"@.len());
    assert("6"@.len() != "mar"@.len());
    assert("6"@.len() != "march"@.len());
    assert("6"@.len() != "04"@.len());
    assert("6"@.len() != "apr"@.len());
    assert("6"@.len() != "april"@.len());
    assert("6"@.len() != "05"@.len());
    assert("6"@.len() != "may"@.len());
    assert("jun"@.len() != "1"@.len());
    assert("jun"@.len() != "01"@.len());
    assert("jun"@.len() != "january"@.len());
    assert("jun"@.len() != "2"@.len());
    assert("jun"@.len() != "02"@.len());
    assert("jun"@.len() != "february"@.len());
    assert("jun"@.len() != "3"@.len());
    assert("jun"@.len() != "03"@.len());
    assert("jun"@.len() != "march"@.len());
    assert("jun"@.len() != "4"@.len());
    assert("jun"@.len() != "04"@.len());
    assert("jun"@.len() != "april"@.len());
    assert("jun"@.len() != "5"@.len());
    assert("jun"@.len() != "05"@.len());
    assert("june"@.len() != "1"@.len());
    assert("june"@.len() != "01"@.len());
    assert("june"@.len() != "jan"@.len());
    assert("june"@.len() != "january"@.len());
    assert("june"@.len() != "2"@.len());
    assert("june"@.len() != "02"@.len());
    assert("june"@.len() != "feb"@.len());
    assert("june"@.len() != "february"@.len());
    assert("june"@.len() != "3"@.len());
    assert("june"@.len() != "03"@.len());
    assert("june"@.len() != "mar"@.len());
    assert("june"@.len() != "march"@.len());
    assert("june"@.len() != "4"@.len());
    assert("june"@.len() != "04"@.len());
    assert("june"@.len() != "apr"@.len());
    assert("june"@.len() != "april"@.len());
    assert("june"@.len() != "5"@.len());
    assert("june"@.len() != "05"@.len());
    assert("june"@.len() != "may"@.len());
}

proof fn lemma_month_names_july()
    ensures
        month_named(month_full_name(Month::July)) == Ok::<Month, ()>(Month::July),
        month_named(month_abbreviation(Month::July)) == Ok::<Month, ()>(Month::July),
        month_named(month_number_text(Month::July)) == Ok::<Month, ()>(Month::July),
        month_named(month_padded_number_text(Month::July)) == Ok::<Month, ()>(Month::July),
{
    reveal_strlit("01");
    reveal_strlit("02");
    reveal_strlit("03");
    reveal_strlit("04");
    reveal_strlit("05");
    reveal_strlit("06");
    reveal_strlit("07");
    reveal_strlit("1");
    reveal_strlit("2");
    reveal_strlit("3");
    reveal_strlit("4");
    reveal_strlit("5");
    reveal_strlit("6");
    reveal_strlit("7");
    reveal_strlit("apr");
    reveal_strlit("april");
    reveal_strlit("feb");
    reveal_strlit("february");
    reveal_strlit("jan");
    reveal_strlit("january");
    reveal_strlit("jul");
    reveal_strlit("july");
    reveal_strlit("jun");
    reveal_strlit("june");
    reveal_strlit("mar");
    reveal_strlit("march");
    reveal_strlit("may");
    assert("7"@[0] != "1"@[0]);
    assert("7"@[0] != "2"@[0]);
    assert("7"@[0] != "3"@[0]);
    assert("7"@[0] != "4"@[0]);
    assert("7"@[0] != "5"@[0]);
    assert("7"@[0] != "6"@[0]);
    assert("07"@[1] != "01"@[1]);
    assert("07"@[1] != "02"@[1]);
    assert("07"@[1] != "03"@[1]);
    assert("07"@[1] != "04"@[1]);
    assert("07"@[1] != "05"@[1]);
    assert("07"@[1] != "06"@[1]);
    assert("july"@[2] != "june"@[2]);
    assert("jul"@[1] != "jan"@[1]);
    assert("jul"@[0] != "feb"@[0]);
    assert("jul"@[0] != "mar"@[0]);
    assert("jul"@[0] != "apr"@[0]);
    assert("jul"@[0] != "may"@[0]);
    assert("jul"@[2] != "jun"@[2]);
    assert("07"@.len() != "1"@.len());
    assert("07"@.len() != "jan"@.len());
    assert("07"@.len() != "january"@.len());
    assert("07"@.len() != "2"@.len());
    assert("07"@.len() != "feb"@.len());
    assert("07"@.len() != "february"@.len());
    assert("07"@.len() != "3"@.len());
    assert("07"@.len() != "mar"@.len());
    assert("07"@.len() != "march"@.len());
    assert("07"@.len() != "4"@.len());
    assert("07"@.len() != "apr"@.len());
    assert("07"@.len() != "april"@.len());
    assert("07"@.len() != "5"@.len());
    assert("07"@.len() != "may"@.len());
    assert("07"@.len() != "6"@.len());
    assert("07"@.len() != "jun"@.len());
    assert("07"@.len() != "june"@.len());
    assert("7"@.len() != "01"@.len());
    assert("7"@.len() != "jan"@.len());
    assert("7"@.len() != "january"@.len());
    assert("7"@.len() != "02"@.len());
    assert("7"@.len() != "feb"@.len());
    assert("7"@.len() != "february"@.len());
    assert("7"@.len() != "03"@.len());
    assert("7"@.len() != "mar"@.len());
    assert("7"@.len() != "march"@.len());
    assert("7"@.len() != "04"@.len());
    assert("7"@.len() != "apr"@.len());
    assert("7"@.len() != "april"@.len());
    assert("7"@.len() != "05"@.len());
    assert("7"@.len() != "may"@.len());
    assert("7"@.len() != "06"@.len());
    assert("7"@.len() != "jun"@.len());
    assert("7"@.len() != "june"@.len());
    assert("jul"@.len() != "1"@.len());
    assert("jul"@.len() != "01"@.len());
    assert("jul"@.len() != "january"@.len());
    assert("jul"@.len() != "2"@.len());
    assert("jul"@.len() != "02"@.len());
    assert("jul"@.len() != "february"@.len());
    assert("jul"@.len() != "3"@.len());
    assert("jul"@.len() != "03"@.len());
    assert("jul"@.len() != "march"@.len());
    assert("jul"@.len() != "4"@.len());
    assert("jul"@.len() != "04"@.len());
    assert("jul"@.len() != "april"@.len());
    assert("jul"@.len() != "5"@.len());
    assert("jul"@.len() != "05"@.len());
    assert("jul"@.len() != "6"@.len());
    assert("jul"@.len() != "06"@.len());
    assert("jul"@.len() != "june"@.len());
    assert("july"@.len() != "1"@.len());
    assert("july"@.len() != "01"@.len());
    assert("july"@.len() != "jan"@.len());
    assert("july"@.len() != "january"@.len());
    assert("july"@.len() != "2"@.len());
    assert("july"@.len() != "02"@.len());
    assert("july"@.len() != "feb"@.len());
    assert("july"@.len() != "february"@.len());
    assert("july"@.len() != "3"@.len());
    assert("july"@.len() != "03"@.len());
    assert("july"@.len() != "mar"@.len());
    assert("july"@.len() != "march"@.len());
    assert("july"@.len() != "4"@.len());
    assert("july"@.len() != "04"@.len());
    assert("july"@.len() != "apr"@.len());
    assert("july"@.len() != "april"@.len());
    assert("july"@.len() != "5"@.len());
    assert("july"@.len() != "05"@.len());
    assert("july"@.len() != "may"@.len());
    assert("july"@.len() != "6"@.len());
    assert("july"@.len() != "06"@.len());
    assert("july"@.len() != "jun"@.len());
}

proof fn lemma_month_names_august()
    ensures
        month_named(month_full_name(Month::August)) == Ok::<Month, ()>(Month::August),
        month_named(month_abbreviation(Month::August)) == Ok::<Month, ()>(Month::August),
        month_named(month_number_text(Month::August)) == Ok::<Month, ()>(Month::August),
        month_named(month_padded_number_text(Month::August)) == Ok::<Month, ()>(Month::August),
{
    reveal_strlit("01");
    reveal_strlit("02");
    reveal_strlit("03");
    reveal_strlit("04");
    reveal_strlit("05");
    reveal_strlit("06");
    reveal_strlit("07");
    reveal_strlit("08");
    reveal_strlit("1");
    reveal_strlit("2");
    reveal_strlit("3");
    reveal_strlit("4");
    reveal_strlit("5");
    reveal_strlit("6");
    reveal_strlit("7");
    reveal_strlit("8");
    reveal_strlit("apr");
    reveal_strlit("april");
    reveal_strlit("aug");
    reveal_strlit("august");
    reveal_strlit("feb");
    reveal_strlit("february");
    reveal_strlit("jan");
    reveal_strlit("january");
    reveal_strlit("jul");
    reveal_strlit("july");
    reveal_strlit("jun");
    reveal_strlit("june");
    reveal_strlit("mar");
    reveal_strlit("march");
    reveal_strlit("may");
    assert("8"@[0] != "1"@[0]);
    assert("8"@[0] != "2"@[0]);
    assert("8"@[0] != "3"@[0]);
    assert("8"@[0] != "4"@[0]);
    assert("8"@[0] != "5"@[0]);
    assert("8"@[0] != "6"@[0]);
    assert("8"@[0] != "7"@[0]);
    assert("08"@[1] != "01"@[1]);
    assert("08"@[1] != "02"@[1]);
    assert("08"@[1] != "03"@[1]);
    assert("08"@[1] != "04"@[1]);
    assert("08"@[1] != "05"@[1]);
    assert("08"@[1] != "06"@[1]);
    assert("08"@[1] != "07"@[1]);
    assert("aug"@[0] != "jan"@[0]);
    assert("aug"@[0] != "feb"@[0]);
    assert("aug"@[0] != "mar"@[0]);
    assert("aug"@[1] != "apr"@[1]);
    assert("aug"@[0] != "may"@[0]);
    assert("aug"@[0] != "jun"@[0]);
    assert("aug"@[0] != "jul"@[0]);
    assert("08"@.len() != "1"@.len());
    assert("08"@.len() != "jan"@.len());
    assert("08"@.len() != "january"@.len());
    assert("08"@.len() != "2"@.len());
    assert("08"@.len() != "feb"@.len());
    assert("08"@.len() != "february"@.len());
    assert("08"@.len() != "3"@.len());
    assert("08"@.len() != "mar"@.len());
    assert("08"@.len() != "march"@.len());
    assert("08"@.len() != "4"@.len());
    assert("08"@.len() != "apr"@.len());
    assert("08"@.len() != "april"@.len());
    assert("08"@.len() != "5"@.len());
    assert("08"@.len() != "may"@.len());
    assert("08"@.len() != "6"@.len());
    assert("08"@.len() != "jun"@.len());
    assert("08"@.len() != "june"@.len());
    assert("08"@.len() != "7"@.len());
    assert("08"@.len() != "jul"@.len());
    assert("08"@.len() != "july"@.len());
    assert("8"@.len() != "01"@.len());
    assert("8"@.len() != "jan"@.len());
    assert("8"@.len() != "january"@.len());
    assert("8"@.len() != "02"@.len());
    assert("8"@.len() != "feb"@.len());
    assert("8"@.len() != "february"@.len());
    assert("8"@.len() != "03"@.len());
    assert("8"@.len() != "mar"@.len());
    assert("8"@.len() != "march"@.len());
    assert("8"@.len() != "04"@.len());
    assert("8"@.len() != "apr"@.len());
    assert("8"@.len() != "april"@.len());
    assert("8"@.len() != "05"@.len());
    assert("8"@.len() != "may"@.len());
    assert("8"@.len() != "06"@.len());
    assert("8"@.len() != "jun"@.len());
    assert("8"@.len() != "june"@.len());
    assert("8"@.len() != "07"@.len());
    assert("8"@.len() != "jul"@.len());
    assert("8"@.len() != "july"@.len());
    assert("aug"@.len() != "1"@.len());
    assert("aug"@.len() != "01"@.len());
    assert("aug"@.len() != "january"@.len());
    assert("aug"@.len() != "2"@.len());
    assert("aug"@.len() != "02"@.len());
    assert("aug"@.len() != "february"@.len());
    assert("aug"@.len() != "3"@.len());
    assert("aug"@.len() != "03"@.len());
    assert("aug"@.len() != "march"@.len());
    assert("aug"@.len() != "4"@.len());
    assert("aug"@.len() != "04"@.len());
    assert("aug"@.len() != "april"@.len());
    assert("aug"@.len() != "5"@.len());
    assert("aug"@.len() != "05"@.len());
    assert("aug"@.len() != "6"@.len());
    assert("aug"@.len() != "06"@.len());
    assert("aug"@.len() != "june"@.len());
    assert("aug"@.len() != "7"@.len());
    assert("aug"@.len() != "07"@.len());
    assert("aug"@.len() != "july"@.len());
    assert("august"@.len() != "1"@.len());
    assert("august"@.len() != "01"@.len());
    assert("august"@.len() != "jan"@.len());
    assert("august"@.len() != "january"@.len());
    assert("august"@.len() != "2"@.len());
    assert("august"@.len() != "02"@.len());
    assert("august"@.len() != "feb"@.len());
    assert("august"@.len() != "february"@.len());
    assert("august"@.len() != "3"@.len());
    assert("august"@.len() != "03"@.len());
    assert("august"@.len() != "mar"@.len());
    assert("august"@.len() != "march"@.len());
    assert("august"@.len() != "4"@.len());
    assert("august"@.len() != "04"@.len());
    assert("august"@.len() != "apr"@.len());
    assert("august"@.len() != "april"@.len());
    assert("august"@.len() != "5"@.len());
    assert("august"@.len() != "05"@.len());
    assert("august"@.len() != "may"@.len());
    assert("august"@.len() != "6"@.len());
    assert("august"@.len() != "06"@.len());
    assert("august"@.len() != "jun"@.len());
    assert("august"@.len() != "june"@.len());
    assert("august"@.len() != "7"@.len());
    assert("august"@.len() != "07"@.len());
    assert("august"@.len() != "jul"@.len());
    assert("august"@.len() != "july"@.len());
}

proof fn lemma_month_names_september()
    ensures
        month_named(month_full_name(Month::September)) == Ok::<Month, ()>(Month::September),
        month_named(month_abbreviation(Month::September)) == Ok::<Month, ()>(Month::September),
        month_named(month_number_text(Month::September)) == Ok::<Month, ()>(Month::September),
        month_named(month_padded_number_text(Month::September)) == Ok::<Month, ()>(Month::September),
{
    reveal_strlit("01");
    reveal_strlit("02");
    reveal_strlit("03");
    reveal_strlit("04");
    reveal_strlit("05");
    reveal_strlit("06");
    reveal_strlit("07");
    reveal_strlit("08");
    reveal_strlit("09");
    reveal_strlit("1");
    reveal_strlit("2");
    reveal_strlit("3");
    reveal_strlit("4");
    reveal_strlit("5");
    reveal_strlit("6");
    reveal_strlit("7");
    reveal_strlit("8");
    reveal_strlit("9");
    reveal_strlit("apr");
    reveal_strlit("april");
    reveal_strlit("aug");
    reveal_strlit("august");
    reveal_strlit("feb");
    reveal_strlit("february");
    reveal_strlit("jan");
    reveal_strlit("january");
    reveal_strlit("jul");
    reveal_strlit("july");
    reveal_strlit("jun");
    reveal_strlit("june");
    reveal_strlit("mar");
    reveal_strlit("march");
    reveal_strlit("may");
    reveal_strlit("sep");
    reveal_strlit("sept");
    reveal_strlit("september");
    assert("sep"@[0] != "jan"@[0]);
    assert("sep"@[0] != "feb"@[0]);
    assert("sep"@[0] != "mar"@[0]);
    assert("sep"@[0] != "apr"@[0]);
    assert("sep"@[0] != "may"@[0]);
    assert("sep"@[0] != "jun"@[0]);
    assert("sep"@[0] != "jul"@[0]);
    assert("sep"@[0] != "aug"@[0]);
    assert("09"@[1] != "01"@[1]);
    assert("09"@[1] != "02"@[1]);
    assert("09"@[1] != "03"@[1]);
    assert("09"@[1] != "04"@[1]);
    assert("09"@[1] != "05"@[1]);
    assert("09"@[1] != "06"@[1]);
    assert("09"@[1] != "07"@[1]);
    assert("09"@[1] != "08"@[1]);
    assert("9"@[0] != "1"@[0]);
    assert("9"@[0] != "2"@[0]);
    assert("9"@[0] != "3"@[0]);
    assert("9"@[0] != "4"@[0]);
    assert("9"@[0] != "5"@[0]);
    assert("9"@[0] != "6"@[0]);
    assert("9"@[0] != "7"@[0]);
    assert("9"@[0] != "8"@[0]);
    assert("09"@.len() != "1"@.len());
    assert("09"@.len() != "jan"@.len());
    assert("09"@.len() != "january"@.len());
    assert("09"@.len() != "2"@.len());
    assert("09"@.len() != "feb"@.len());
    assert("09"@.len() != "february"@.len());
    assert("09"@.len() != "3"@.len());
    assert("09"@.len() != "mar"@.len());
    assert("09"@.len() != "march"@.len());
    assert("09"@.len() != "4"@.len());
    assert("09"@.len() != "apr"@.len());
    assert("09"@.len() != "april"@.len());
    assert("09"@.len() != "5"@.len());
    assert("09"@.len() != "may"@.len());
    assert("09"@.len() != "6"@.len());
    assert("09"@.len() != "jun"@.len());
    assert("09"@.len() != "june"@.len());
    assert("09"@.len() != "7"@.len());
    assert("09"@.len() != "jul"@.len());
    assert("09"@.len() != "july"@.len());
    assert("09"@.len() != "8"@.len());
    assert("09"@.len() != "aug"@.len());
    assert("09"@.len() != "august"@.len());
    assert("9"@.len() != "01"@.len());
    assert("9"@.len() != "jan"@.len());
    assert("9"@.len() != "january"@.len());
    assert("9"@.len() != "02"@.len());
    assert("9"@.len() != "feb"@.len());
    assert("9"@.len() != "february"@.len());
    assert("9"@.len() != "03"@.len());
    assert("9"@.len() != "mar"@.len());
    assert("9"@.len() != "march"@.len());
    assert("9"@.len() != "04"@.len());
    assert("9"@.len() != "apr"@.len());
    assert("9"@.len() != "april"@.len());
    assert("9"@.len() != "05"@.len());
    assert("9"@.len() != "may"@.len());
    assert("9"@.len() != "06"@.len());
    assert("9"@.len() != "jun"@.len());
    assert("9"@.len() != "june"@.len());
    assert("9"@.len() != "07"@.len());
    assert("9"@.len() != "jul"@.len());
    assert("9"@.len() != "july"@.len());
    assert("9"@.len() != "08"@.len());
    assert("9"@.len() != "aug"@.len());
    assert("9"@.len() != "august"@.len());
    assert("sep"@.len() != "1"@.len());
    assert("sep"@.len() != "01"@.len());
    assert("sep"@.len() != "january"@.len());
    assert("sep"@.len() != "2"@.len());
    assert("sep"@.len() != "02"@.len());
    assert("sep"@.len() != "february"@.len());
    assert("sep"@.len() != "3"@.len());
    assert("sep"@.len() != "03"@.len());
    assert("sep"@.len() != "march"@.len());
    assert("sep"@.len() != "4"@.len());
    assert("sep"@.len() != "04"@.len());
    assert("sep"@.len() != "april"@.len());
    assert("sep"@.len() != "5"@.len());
    assert("sep"@.len() != "05"@.len());
    assert("sep"@.len() != "6"@.len());
    assert("sep"@.len() != "06"@.len());
    assert("sep"@.len() != "june"@.len());
    assert("sep"@.len() != "7"@.len());
    assert("sep"@.len() != "07"@.len());
    assert("sep"@.len() != "july"@.len());
    assert("sep"@.len() != "8"@.len());
    assert("sep"@.len() != "08"@.len());
    assert("sep"@.len() != "august"@.len());
    assert("september"@.len() != "1"@.len());
    assert("september"@.len() != "01"@.len());
    assert("september"@.len() != "jan"@.len());
    assert("september"@.len() != "january"@.len());
    assert("september"@.len() != "2"@.len());
    assert("september"@.len() != "02"@.len());
    assert("september"@.len() != "feb"@.len());
    assert("september"@.len() != "february"@.len());
    assert("september"@.len() != "3"@.len());
    assert("september"@.len() != "03"@.len());
    assert("september"@.len() != "mar"@.len());
    assert("september"@.len() != "march"@.len());
    assert("september"@.len() != "4"@.len());
    assert("september"@.len() != "04"@.len());
    assert("september"@.len() != "apr"@.len());
    assert("september"@.len() != "april"@.len());
    assert("september"@.len() != "5"@.len());
    assert("september"@.len() != "05"@.len());
    assert("september"@.len() != "may"@.len());
    assert("september"@.len() != "6"@.len());
    assert("september"@.len() != "06"@.len());
    assert("september"@.len() != "jun"@.len());
    assert("september"@.len() != "june"@.len());
    assert("september"@.len() != "7"@.len());
    assert("september"@.len() != "07"@.len());
    assert("september"@.len() != "jul"@.len());
    assert("september"@.len() != "july"@.len());
    assert("september"@.len() != "8"@.len());
    assert("september"@.len() != "08"@.len());
    assert("september"@.len() != "aug"@.len());
    assert("september"@.len() != "august"@.len());
}

proof fn lemma_month_names_october()
    ensures
        month_named(month_full_name(Month::October)) == Ok::<Month, ()>(Month::October),
        month_named(month_abbreviation(Month::October)) == Ok::<Month, ()>(Month::October),
        month_named(month_number_text(Month::October)) == Ok::<Month, ()>(Month::October),
        month_named(month_padded_number_text(Month::October)) == Ok::<Month, ()>(Month::October),
{
    reveal_strlit("01");
    reveal_strlit("02");
    reveal_strlit("03");
    reveal_strlit("04");
    reveal_strlit("05");
    reveal_strlit("06");
    reveal_strlit("07");
    reveal_strlit("08");
    reveal_strlit("09");
    reveal_strlit("1");
    reveal_strlit("10");
    reveal_strlit("2");
    reveal_strlit("3");
    reveal_strlit("4");
    reveal_strlit("5");
    reveal_strlit("6");
    reveal_strlit("7");
    reveal_strlit("8");
    reveal_strlit("9");
    reveal_strlit("apr");
    reveal_strlit("april");
    reveal_strlit("aug");
    reveal_strlit("august");
    reveal_strlit("feb");
    reveal_strlit("february");
    reveal_strlit("jan");
    reveal_strlit("january");
    reveal_strlit("jul");
    reveal_strlit("july");
    reveal_strlit("jun");
    reveal_strlit("june");
    reveal_strlit("mar");
    reveal_strlit("march");
    reveal_strlit("may");
    reveal_strlit("oct");
    reveal_strlit("october");
    reveal_strlit("sep");
    reveal_strlit("sept");
    reveal_strlit("september");
    assert("10"@[0] != "01"@[0]);
    assert("10"@[0] != "02"@[0]);
    assert("10"@[0] != "03"@[0]);
    assert("10"@[0] != "04"@[0]);
    assert("10"@[0] != "05"@[0]);
    assert("10"@[0] != "06"@[0]);
    assert("10"@[0] != "07"@[0]);
    assert("10"@[0] != "08"@[0]);
    assert("10"@[0] != "09"@[0]);
    assert("october"@[0] != "january"@[0]);
    assert("oct"@[0] != "jan"@[0]);
    assert("oct"@[0] != "feb"@[0]);
    assert("oct"@[0] != "mar"@[0]);
    assert("oct"@[0] != "apr"@[0]);
    assert("oct"@[0] != "may"@[0]);
    assert("oct"@[0] != "jun"@[0]);
    assert("oct"@[0] != "jul"@[0]);
    assert("oct"@[0] != "aug"@[0]);
    assert("oct"@[0] != "sep"@[0]);
    assert("10"@.len() != "1"@.len());
    assert("10"@.len() != "jan"@.len());
    assert("10"@.len() != "january"@.len());
    assert("10"@.len() != "2"@.len());
    assert("10"@.len() != "feb"@.len());
    assert("10"@.len() != "february"@.len());
    assert("10"@.len() != "3"@.len());
    assert("10"@.len() != "mar"@.len());
    assert("10"@.len() != "march"@.len());
    assert("10"@.len() != "4"@.len());
    assert("10"@.len() != "apr"@.len());
    assert("10"@.len() != "april"@.len());
    assert("10"@.len() != "5"@.len());
    assert("10"@.len() != "may"@.len());
    assert("10"@.len() != "6"@.len());
    assert("10"@.len() != "jun"@.len());
    assert("10"@.len() != "june"@.len());
    assert("10"@.len() != "7"@.len());
    assert("10"@.len() != "jul"@.len());
    assert("10"@.len() != "july"@.len());
    assert("10"@.len() != "8"@.len());
    assert("10"@.len() != "aug"@.len());
    assert("10"@.len() != "august"@.len());
    assert("10"@.len() != "9"@.len());
    assert("10"@.len() != "sep"@.len());
    assert("10"@.len() != "sept"@.len());
    assert("10"@.len() != "september"@.len());
    assert("oct"@.len() != "1"@.len());
    assert("oct"@.len() != "01"@.len());
    assert("oct"@.len() != "january"@.len());
    assert("oct"@.len() != "2"@.len());
    assert("oct"@.len() != "02"@.len());
    assert("oct"@.len() != "february"@.len());
    assert("oct"@.len() != "3"@.len());
    assert("oct"@.len() != "03"@.len());
    assert("oct"@.len() != "march"@.len());
    assert("oct"@.len() != "4"@.len());
    assert("oct"@.len() != "04"@.len());
    assert("oct"@.len() != "april"@.len());
    assert("oct"@.len() != "5"@.len());
    assert("oct"@.len() != "05"@.len());
    assert("oct"@.len() != "6"@.len());
    assert("oct"@.len() != "06"@.len());
    assert("oct"@.len() != "june"@.len());
    assert("oct"@.len() != "7"@.len());
    assert("oct"@.len() != "07"@.len());
    assert("oct"@.len() != "july"@.len());
    assert("oct"@.len() != "8"@.len());
    assert("oct"@.len() != "08"@.len());
    assert("oct"@.len() != "august"@.len());
    assert("oct"@.len() != "9"@.len());
    assert("oct"@.len() != "09"@.len());
    assert("oct"@.len() != "sept"@.len());
    assert("oct"@.len() != "september"@.len());
    assert("october"@.len() != "1"@.len());
    assert("october"@.len() != "01"@.len());
    assert("october"@.len() != "jan"@.len());
    assert("october"@.len() != "2"@.len());
    assert("october"@.len() != "02"@.len());
    assert("october"@.len() != "feb"@.len());
    assert("october"@.len() != "february"@.len());
    assert("october"@.len() != "3"@.len());
    assert("october"@.len() != "03"@.len());
    assert("october"@.len() != "mar"@.len());
    assert("october"@.len() != "march"@.len());
    assert("october"@.len() != "4"@.len());
    assert("october"@.len() != "04"@.len());
    assert("october"@.len() != "apr"@.len());
    assert("october"@.len() != "april"@.len());
    assert("october"@.len() != "5"@.len());
    assert("october"@.len() != "05"@.len());
    assert("october"@.len() != "may"@.len());
    assert("october"@.len() != "6"@.len());
    assert("october"@.len() != "06"@.len());
    assert("october"@.len() != "jun"@.len());
    assert("october"@.len() != "june"@.len());
    assert("october"@.len() != "7"@.len());
    assert("october"@.len() != "07"@.len());
    assert("october"@.len() != "jul"@.len());
    assert("october"@.len() != "july"@.len());
    assert("october"@.len() != "8"@.len());
    assert("october"@.len() != "08"@.len());
    assert("october"@.len() != "aug"@.len());
    assert("october"@.len() != "august"@.len());
    assert("october"@.len() != "9"@.len());
    assert("october"@.len() != "09"@.len());
    assert("october"@.len() != "sep"@.len());
    assert("october"@.len() != "sept"@.len());
    assert("october"@.len() != "september"@.len());
}

proof fn lemma_month_names_november()
    ensures
        month_named(month_full_name(Month::November)) == Ok::<Month, ()>(Month::November),
        month_named(month_abbreviation(Month::November)) == Ok::<Month, ()>(Month::November),
        month_named(month_number_text(Month::November)) == Ok::<Month, ()>(Month::November),
        month_named(month_padded_number_text(Month::November)) == Ok::<Month, ()>(Month::November),
{
    reveal_strlit("01");
    reveal_strlit("02");
    reveal_strlit("03");
    reveal_strlit("04");
    reveal_strlit("05");
    reveal_strlit("06");
    reveal_strlit("07");
    reveal_strlit("08");
    reveal_strlit("09");
    reveal_strlit("1");
    reveal_strlit("10");
    reveal_strlit("11");
    reveal_strlit("2");
    reveal_strlit("3");
    reveal_strlit("4");
    reveal_strlit("5");
    reveal_strlit("6");
    reveal_strlit("7");
    reveal_strlit("8");
    reveal_strlit("9");
    reveal_strlit("apr");
    reveal_strlit("april");
    reveal_strlit("aug");
    reveal_strlit("august");
    reveal_strlit("feb");
    reveal_strlit("february");
    reveal_strlit("jan");
    reveal_strlit("january");
    reveal_strlit("jul");
    reveal_strlit("july");
    reveal_strlit("jun");
    reveal_strlit("june");
    reveal_strlit("mar");
    reveal_strlit("march");
    reveal_strlit("may");
    reveal_strlit("nov");
    reveal_strlit("november");
    reveal_strlit("oct");
    reveal_strlit("october");
    reveal_strlit("sep");
    reveal_strlit("sept");
    reveal_strlit("september");
    assert("11"@[0] != "01"@[0]);
    assert("11"@[0] != "02"@[0]);
    assert("11"@[0] != "03"@[0]);
    assert("11"@[0] != "04"@[0]);
    assert("11"@[0] != "05"@[0]);
    assert("11"@[0] != "06"@[0]);
    assert("11"@[0] != "07"@[0]);
    assert("11"@[0] != "08"@[0]);
    assert("11"@[0] != "09"@[0]);
    assert("11"@[1] != "10"@[1]);
    assert("november"@[0] != "february"@[0]);
    assert("nov"@[0] != "jan"@[0]);
    assert("nov"@[0] != "feb"@[0]);
    assert("nov"@[0] != "mar"@[0]);
    assert("nov"@[0] != "apr"@[0]);
    assert("nov"@[0] != "may"@[0]);
    assert("nov"@[0] != "jun"@[0]);
    assert("nov"@[0] != "jul"@[0]);
    assert("nov"@[0] != "aug"@[0]);
    assert("nov"@[0] != "sep"@[0]);
    assert("nov"@[0] != "oct"@[0]);
    assert("11"@.len() != "1"@.len());
    assert("11"@.len() != "jan"@.len());
    assert("11"@.len() != "january"@.len());
    assert("11"@.len() != "2"@.len());
    assert("11"@.len() != "feb"@.len());
    assert("11"@.len() != "february"@.len());
    assert("11"@.len() != "3"@.len());
    assert("11"@.len() != "mar"@.len());
    assert("11"@.len() != "march"@.len());
    assert("11"@.len() != "4"@.len());
    assert("11"@.len() != "apr"@.len());
    assert("11"@.len() != "april"@.len());
    assert("11"@.len() != "5"@.len());
    assert("11"@.len() != "may"@.len());
    assert("11"@.len() != "6"@.len());
    assert("11"@.len() != "jun"@.len());
    assert("11"@.len() != "june"@.len());
    assert("11"@.len() != "7"@.len());
    assert("11"@.len() != "jul"@.len());
    assert("11"@.len() != "july"@.len());
    assert("11"@.len() != "8"@.len());
    assert("11"@.len() != "aug"@.len());
    assert("11"@.len() != "august"@.len());
    assert("11"@.len() != "9"@.len());
    assert("11"@.len() != "sep"@.len());
    assert("11"@.len() != "sept"@.len());
    assert("11"@.len() != "september"@.len());
    assert("11"@.len() != "oct"@.len());
    assert("11"@.len() != "october"@.len());
    assert("nov"@.len() != "1"@.len());
    assert("nov"@.len() != "01"@.len());
    assert("nov"@.len() != "january"@.len());
    assert("nov"@.len() != "2"@.len());
    assert("nov"@.len() != "02"@.len());
    assert("nov"@.len() != "february"@.len());
    assert("nov"@.len() != "3"@.len());
    assert("nov"@.len() != "03"@.len());
    assert("nov"@.len() != "march"@.len());
    assert("nov"@.len() != "4"@.len());
    assert("nov"@.len() != "04"@.len());
    assert("nov"@.len() != "april"@.len());
    assert("nov"@.len() != "5"@.len());
    assert("nov"@.len() != "05"@.len());
    assert("nov"@.len() != "6"@.len());
    assert("nov"@.len() != "06"@.len());
    assert("nov"@.len() != "june"@.len());
    assert("nov"@.len() != "7"@.len());
    assert("nov"@.len() != "07"@.len());
    assert("nov"@.len() != "july"@.len());
    assert("nov"@.len() != "8"@.len());
    assert("nov"@.len() != "08"@.len());
    assert("nov"@.len() != "august"@.len());
    assert("nov"@.len() != "9"@.len());
    assert("nov"@.len() != "09"@.len());
    assert("nov"@.len() != "sept"@.len());
    assert("nov"@.len() != "september"@.len());
    assert("nov"@.len() != "10"@.len());
    assert("nov"@.len() != "october"@.len());
    assert("november"@.len() != "1"@.len());
    assert("november"@.len() != "01"@.len());
    assert("november"@.len() != "jan"@.len());
    assert("november"@.len() != "january"@.len());
    assert("november"@.len() != "2"@.len());
    assert("november"@.len() != "02"@.len());
    assert("november"@.len() != "feb"@.len());
    assert("november"@.len() != "3"@.len());
    assert("november"@.len() != "03"@.len());
    assert("november"@.len() != "mar"@.len());
    assert("november"@.len() != "march"@.len());
    assert("november"@.len() != "4"@.len());
    assert("november"@.len() != "04"@.len());
    assert("november"@.len() != "apr"@.len());
    assert("november"@.len() != "april"@.len());
    assert("november"@.len() != "5"@.len());
    assert("november"@.len() != "05"@.len());
    assert("november"@.len() != "may"@.len());
    assert("november"@.len() != "6"@.len());
    assert("november"@.len() != "06"@.len());
    assert("november"@.len() != "jun"@.len());
    assert("november"@.len() != "june"@.len());
    assert("november"@.len() != "7"@.len());
    assert("november"@.len() != "07"@.len());
    assert("november"@.len() != "jul"@.len());
    assert("november"@.len() != "july"@.len());
    assert("november"@.len() != "8"@.len());
    assert("november"@.len() != "08"@.len());
    assert("november"@.len() != "aug"@.len());
    assert("november"@.len() != "august"@.len());
    assert("november"@.len() != "9"@.len());
    assert("november"@.len() != "09"@.len());
    assert("november"@.len() != "sep"@.len());
    assert("november"@.len() != "sept"@.len());
    assert("november"@.len() != "september"@.len());
    assert("november"@.len() != "10"@.len());
    assert("november"@.len() != "oct"@.len());
    assert("november"@.len() != "october"@.len());
}

proof fn lemma_month_names_december()
    ensures
        month_named(month_full_name(Month::December)) == Ok::<Month, ()>(Month::December),
        month_named(month_abbreviation(Month::December)) == Ok::<Month, ()>(Month::December),
        month_named(month_number_text(Month::December)) == Ok::<Month, ()>(Month::December),
        month_named(month_padded_number_text(Month::December)) == Ok::<Month, ()>(Month::December),
{
    reveal_strlit("01");
    reveal_strlit("02");
    reveal_strlit("03");
    reveal_strlit("04");
    reveal_strlit("05");
    reveal_strlit("06");
    reveal_strlit("07");
    reveal_strlit("08");
    reveal_strlit("09");
    reveal_strlit("1");
    reveal_strlit("10");
    reveal_strlit("11");
    reveal_strlit("12");
    reveal_strlit("2");
    reveal_strlit("3");
    reveal_strlit("4");
    reveal_strlit("5");
    reveal_strlit("6");
    reveal_strlit("7");
    reveal_strlit("8");
    reveal_strlit("9");
    reveal_strlit("apr");
    reveal_strlit("april");
    reveal_strlit("aug");
    reveal_strlit("august");
    reveal_strlit("dec");
    reveal_strlit("december");
    reveal_strlit("feb");
    reveal_strlit("february");
    reveal_strlit("jan");
    reveal_strlit("january");
    reveal_strlit("jul");
    reveal_strlit("july");
    reveal_strlit("jun");
    reveal_strlit("june");
    reveal_strlit("mar");
    reveal_strlit("march");
    reveal_strlit("may");
    reveal_strlit("nov");
    reveal_strlit("november");
    reveal_strlit("oct");
    reveal_strlit("october");
    reveal_strlit("sep");
    reveal_strlit("sept");
    reveal_strlit("september");
    assert("dec"@[0] != "jan"@[0]);
    assert("dec"@[0] != "feb"@[0]);
    assert("dec"@[0] != "mar"@[0]);
    assert("dec"@[0] != "apr"@[0]);
    assert("dec"@[0] != "may"@[0]);
    assert("dec"@[0] != "jun"@[0]);
    assert("dec"@[0] != "jul"@[0]);
    assert("dec"@[0] != "aug"@[0]);
    assert("dec"@[0] != "sep"@[0]);
    assert("dec"@[0] != "oct"@[0]);
    assert("dec"@[0] != "nov"@[0]);
    assert("december"@[0] != "february"@[0]);
    assert("december"@[0] != "november"@[0]);
    assert("12"@[0] != "01"@[0]);
    assert("12"@[0] != "02"@[0]);
    assert("12"@[0] != "03"@[0]);
    assert("12"@[0] != "04"@[0]);
    assert("12"@[0] != "05"@[0]);
    assert("12"@[0] != "06"@[0]);
    assert("12"@[0] != "07"@[0]);
    assert("12"@[0] != "08"@[0]);
    assert("12"@[0] != "09"@[0]);
    assert("12"@[1] != "10"@[1]);
    assert("12"@[1] != "11"@[1]);
    assert("12"@.len() != "1"@.len());
    assert("12"@.len() != "jan"@.len());
    assert("12"@.len() != "january"@.len());
    assert("12"@.len() != "2"@.len());
    assert("12"@.len() != "feb"@.len());
    assert("12"@.len() != "february"@.len());
    assert("12"@.len() != "3"@.len());
    assert("12"@.len() != "mar"@.len());
    assert("12"@.len() != "march"@.len());
    assert("12"@.len() != "4"@.len());
    assert("12"@.len() != "apr"@.len());
    assert("12"@.len() != "april"@.len());
    assert("12"@.len() != "5"@.len());
    assert("12"@.len() != "may"@.len());
    assert("12"@.len() != "6"@.len());
    assert("12"@.len() != "jun"@.len());
    assert("12"@.len() != "june"@.len());
    assert("12"@.len() != "7"@.len());
    assert("12"@.len() != "jul"@.len());
    assert("12"@.len() != "july"@.len());
    assert("12"@.len() != "8"@.len());
    assert("12"@.len() != "aug"@.len());
    assert("12"@.len() != "august"@.len());
    assert("12"@.len() != "9"@.len());
    assert("12"@.len() != "sep"@.len());
    assert("12"@.len() != "sept"@.len());
    assert("12"@.len() != "september"@.len());
    assert("12"@.len() != "oct"@.len());
    assert("12"@.len() != "october"@.len());
    assert("12"@.len() != "nov"@.len());
    assert("12"@.len() != "november"@.len());
    assert("dec"@.len() != "1"@.len());
    assert("dec"@.len() != "01"@.len());
    assert("dec"@.len() != "january"@.len());
    assert("dec"@.len() != "2"@.len());
    assert("dec"@.len() != "02"@.len());
    assert("dec"@.len() != "february"@.len());
    assert("dec"@.len() != "3"@.len());
    assert("dec"@.len() != "03"@.len());
    assert("dec"@.len() != "march"@.len());
    assert("dec"@.len() != "4"@.len());
    assert("dec"@.len() != "04"@.len());
    assert("dec"@.len() != "april"@.len());
    assert("dec"@.len() != "5"@.len());
    assert("dec"@.len() != "05"@.len());
    assert("dec"@.len() != "6"@.len());
    assert("dec"@.len() != "06"@.len());
    assert("dec"@.len() != "june"@.len());
    assert("dec"@.len() != "7"@.len());
    assert("dec"@.len() != "07"@.len());
    assert("dec"@.len() != "july"@.len());
    assert("dec"@.len() != "8"@.len());
    assert("dec"@.len() != "08"@.len());
    assert("dec"@.len() != "august"@.len());
    assert("dec"@.len() != "9"@.len());
    assert("dec"@.len() != "09"@.len());
    assert("dec"@.len() != "sept"@.len());
    assert("dec"@.len() != "september"@.len());
    assert("dec"@.len() != "10"@.len());
    assert("dec"@.len() != "october"@.len());
    assert("dec"@.len() != "11"@.len());
    assert("dec"@.len() != "november"@.len());
    assert("december"@.len() != "1"@.len());
    assert("december"@.len() != "01"@.len());
    assert("december"@.len() != "jan"@.len());
    assert("december"@.len() != "january"@.len());
    assert("december"@.len() != "2"@.len());
    assert("december"@.len() != "02"@.len());
    assert("december"@.len() != "feb"@.len());
    assert("december"@.len() != "3"@.len());
    assert("december"@.len() != "03"@.len());
    assert("december"@.len() != "mar"@.len());
    assert("december"@.len() != "march"@.len());
    assert("december"@.len() != "4"@.len());
    assert("december"@.len() != "04"@.len());
    assert("december"@.len() != "apr"@.len());
    assert("december"@.len() != "april"@.len());
    assert("december"@.len() != "5"@.len());
    assert("december"@.len() != "05"@.len());
    assert("december"@.len() != "may"@.len());
    assert("december"@.len() != "6"@.len());
    assert("december"@.len() != "06"@.len());
    assert("december"@.len() != "jun"@.len());
    assert("december"@.len() != "june"@.len());
    assert("december"@.len() != "7"@.len());
    assert("december"@.len() != "07"@.len());
    assert("december"@.len() != "jul"@.len());
    assert("december"@.len() != "july"@.len());
    assert("december"@.len() != "8"@.len());
    assert("december"@.len() != "08"@.len());
    assert("december"@.len() != "aug"@.len());
    assert("december"@.len() != "august"@.len());
    assert("december"@.len() != "9"@.len());
    assert("december"@.len() != "09"@.len());
    assert("december"@.len() != "sep"@.len());
    assert("december"@.len() != "sept"@.len());
    assert("december"@.len() != "september"@.len());
    assert("december"@.len() != "10"@.len());
    assert("december"@.len() != "oct"@.len());
    assert("december"@.len() != "october"@.len());
    assert("december"@.len() != "11"@.len());
    assert("december"@.len() != "nov"@.len());
}

/// Every month is read from its English name, its three-letter
/// abbreviation and its number, with or without a leading zero.
pub proof fn law_month_names(m: Month)
    ensures
        month_named(month_full_name(m)) == Ok::<Month, ()>(m),
        month_named(month_abbreviation(m)) == Ok::<Month, ()>(m),
        month_named(month_number_text(m)) == Ok::<Month, ()>(m),
        month_named(month_padded_number_text(m)) == Ok::<Month, ()>(m),
{
    match m {
        Month::January => lemma_month_names_january(),
        Month::February => lemma_month_names_february(),
        Month::March => lemma_month_names_march(),
        Month::April => lemma_month_names_april(),
        Month::May => lemma_month_names_may(),
        Month::June => lemma_month_names_june(),
        Month::July => lemma_month_names_july(),
        Month::August => lemma_month_names_august(),
        Month::September => lemma_month_names_september(),
        Month::October => lemma_month_names_october(),
        Month::November => lemma_month_names_november(),
        Month::December => lemma_month_names_december(),
    }
}

/// A word of four ASCII digits is read as a year exactly when the number it
/// writes lies between 1980 and 2040, and then as that year; a word of one or
/// two ASCII digits is read as a day exactly when its number lies between 1
/// and 31, and then as that day.
pub proof fn law_year_and_day_words(w: Seq<char>)
    requires
        all_ascii_digits(w),
    ensures
        w.len() == 4 ==> (year_from_shape(w, true) is Ok <==> 1980 <= decimal_value(w) <= 2040),
        w.len() == 4 && year_from_shape(w, true) is Ok ==> year_from_shape(w, true)->Ok_0.0 == decimal_value(w),
        1 <= w.len() <= 2 ==> (day_from_shape(w, true) is Ok <==> 1 <= decimal_value(w) <= 31),
        1 <= w.len() <= 2 && day_from_shape(w, true) is Ok ==> day_from_shape(w, true)->Ok_0.0 == decimal_value(w),
{
    if 1 <= w.len() <= 9 {
        lemma_digits_parse(w);
    }
}

} // verus!
