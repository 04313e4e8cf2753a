//! Symbols, dates and raw bars.
use chrono::Datelike;
use vstd::prelude::*;
use vstd::std_specs::cmp::PartialEqSpecImpl;
use vstd::std_specs::convert::FromSpecImpl;
use vstd::string::StrSliceExecFns;

use super::DataError;

verus! {

/// `chrono::NaiveDate`, a calendar date. The verifier sees nothing of what
/// a value holds.
#[verifier::external_type_specification]
#[verifier::external_body]
pub struct ExNaiveDate(chrono::NaiveDate);

/// `chrono::ParseError`, why a text is no date. The verifier sees nothing of
/// what a value holds.
#[verifier::external_type_specification]
#[verifier::external_body]
pub struct ExParseError(chrono::ParseError);

/// The text that `str::to_uppercase` gives for `text`.
pub uninterp spec fn uppercase(text: Seq<char>) -> Seq<char>;

/// `str::to_uppercase`: the upper-case form of `text` by the Unicode tables
/// of the standard library. The result is a function of the characters alone.
#[verifier::external_body]
fn to_uppercase(text: &str) -> (upper: String)
    ensures
        upper@ == uppercase(text@),
{
    text.to_uppercase()
}

/// `Datelike::num_days_from_ce` on a `NaiveDate`: the number of the day in the
/// proleptic Gregorian calendar, 1 for January 1 of year 1. Nothing is claimed
/// of the number, since the date itself is not visible to the verifier.
#[verifier::external_body]
fn days_from_ce(date: &chrono::NaiveDate) -> (days: i32)
{
    date.num_days_from_ce()
}

/// The day number of the date that `NaiveDate::parse_from_str` reads from
/// `text` by `format`, and `None` where it reads none.
pub uninterp spec fn parsed_date(text: Seq<char>, format: Seq<char>) -> Option<int>;

/// `NaiveDate::parse_from_str`: the date that `text` holds when it is read
/// by the format `format`, or why there is none. What is read is a function of
/// the two texts alone.
#[verifier::external_body]
pub(crate) fn parse_date(text: &str, format: &str) -> (parsed: Result<BarDate, chrono::ParseError>)
    ensures
        match parsed {
            Ok(date) => parsed_date(text@, format@) == Some(date@),
            Err(_) => parsed_date(text@, format@) is None,
        },
{
    match chrono::NaiveDate::parse_from_str(text, format) {
        Ok(date) => Ok(BarDate(date.num_days_from_ce())),
        Err(error) => Err(error),
    }
}

/// `Utc::now`, reduced to the day number of the current date in UTC. The
/// result depends on the clock, so nothing is claimed of it. `Utc::now` panics
/// if the clock is set before 1970.
#[verifier::external_body]
fn today_from_ce() -> (days: i32)
{
    chrono::Utc::now().date_naive().num_days_from_ce()
}

/// The name of one tradable instrument.
#[derive(Debug, Eq, Hash)]
pub struct Symbol(String);

impl View for Symbol {
    type V = Seq<char>;

    closed spec fn view(&self) -> Seq<char> {
        self.0@
    }
}

/// Whether `text` is accepted as a symbol: not empty, at most five characters.
pub open spec fn valid_symbol(text: Seq<char>) -> bool {
    1 <= text.len() <= 5
}

impl Symbol {
    /// Makes a symbol from `symbol`, in upper case.
    pub fn new(symbol: &str) -> (made: Result<Self, DataError>)
        ensures
            valid_symbol(symbol@) ==> made is Ok && made->Ok_0@ == uppercase(symbol@),
            !valid_symbol(symbol@) ==> made == Err::<Self, DataError>(DataError::InvalidSymbol),
    {
        if symbol.is_empty() || symbol.unicode_len() > 5 {
            return Err(DataError::InvalidSymbol);
        }
        Ok(Self(to_uppercase(symbol)))
    }

    /// The symbol's text.
    pub fn as_str(&self) -> (text: &str)
        ensures
            text@ == self@,
    {
        self.0.as_str()
    }

    /// Whether this symbol and `other` have the same text.
    pub fn same_as(&self, other: &Symbol) -> (same: bool)
        ensures
            same == (self@ == other@),
    {
        self.0 == other.0
    }

    /// The symbol's text, owned.
    pub fn to_string(&self) -> (text: String)
        ensures
            text@ == self@,
    {
        self.0.clone()
    }
}

impl Clone for Symbol {
    fn clone(&self) -> (copy: Self)
        ensures
            copy == *self,
    {
        Symbol(self.0.clone())
    }
}

impl PartialEq for Symbol {
    fn eq(&self, other: &Self) -> (same: bool) {
        self.same_as(other)
    }
}

impl PartialEqSpecImpl for Symbol {
    open spec fn obeys_eq_spec() -> bool {
        true
    }

    open spec fn eq_spec(&self, other: &Self) -> bool {
        self@ == other@
    }
}

impl From<&'static str> for Symbol {
    /// Takes `symbol` as it is, whatever its length and its case.
    fn from(symbol: &'static str) -> (made: Self)
        ensures
            made@ == symbol@,
    {
        Self(symbol.to_owned())
    }
}

impl FromSpecImpl<&'static str> for Symbol {
    open spec fn obeys_from_spec() -> bool {
        false
    }

    open spec fn from_spec(symbol: &'static str) -> Self {
        choose|made: Self| made@ == symbol@
    }
}

/// A calendar date, held as the number of its day in the proleptic Gregorian
/// calendar, where January 1 of year 1 is day 1. Dates are ordered as their
/// day numbers are.
#[derive(Debug, Clone, Copy, PartialEq, Eq, PartialOrd, Ord, Hash, Structural)]
pub struct BarDate(i32);

impl View for BarDate {
    type V = int;

    closed spec fn view(&self) -> int {
        self.0 as int
    }
}

impl BarDate {
    /// The date whose day number is `days`.
    pub fn from_num_days_from_ce(days: i32) -> (date: Self)
        ensures
            date@ == days,
    {
        BarDate(days)
    }

    /// The date's day number.
    pub fn num_days_from_ce(&self) -> (days: i32)
        ensures
            days == self@,
    {
        self.0
    }

    /// Whether this date is strictly earlier than `other`.
    pub fn is_before(&self, other: &BarDate) -> (earlier: bool)
        ensures
            earlier == (self@ < other@),
    {
        self.0 < other.0
    }

    /// Two dates with the same day number are the same date.
    pub proof fn lemma_view_determines(a: BarDate, b: BarDate)
        requires
            a@ == b@,
        ensures
            a == b,
    {
    }
}

impl From<chrono::NaiveDate> for BarDate {
    fn from(date: chrono::NaiveDate) -> (made: Self) {
        BarDate(days_from_ce(&date))
    }
}

impl FromSpecImpl<chrono::NaiveDate> for BarDate {
    open spec fn obeys_from_spec() -> bool {
        false
    }

    open spec fn from_spec(date: chrono::NaiveDate) -> Self {
        arbitrary()
    }
}

impl Default for BarDate {
    /// The current date in UTC.
    fn default() -> (date: Self) {
        BarDate(today_from_ce())
    }
}

/// A record that carries the date it belongs to.
pub trait GetBarDate {
    /// The record's date.
    spec fn date(&self) -> BarDate;

    /// The record's date.
    fn bardate(&self) -> (date: BarDate)
        ensures
            date == self.date(),
    ;
}

/// One dated observation of an instrument. Each price is carried as the bit
/// pattern of an IEEE 754 single-precision number; nothing here reads a price
/// as a number.
#[derive(Debug, Clone, Copy)]
pub struct OHLCBar {
    pub bardate: BarDate,
    pub open: u32,
    pub low: u32,
    pub high: u32,
    pub close: u32,
    pub adj_close: u32,
    pub volume: u32,
}

impl GetBarDate for OHLCBar {
    open spec fn date(&self) -> BarDate {
        self.bardate
    }

    fn bardate(&self) -> (date: BarDate) {
        self.bardate
    }
}

impl Default for OHLCBar {
    /// A bar of the current date with every price and the volume at zero.
    fn default() -> (bar: Self)
        ensures
            bar.open == 0,
            bar.low == 0,
            bar.high == 0,
            bar.close == 0,
            bar.adj_close == 0,
            bar.volume == 0,
    {
        OHLCBar {
            bardate: BarDate::default(),
            open: 0,
            low: 0,
            high: 0,
            close: 0,
            adj_close: 0,
            volume: 0,
        }
    }
}

} // verus!
