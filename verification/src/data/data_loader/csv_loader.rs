//! Bars from the records of a comma-separated file: a date, five prices and
//! a volume in every record.
use std::num::{ParseFloatError, ParseIntError};

use chrono::ParseError;
use vstd::prelude::*;

use crate::data::asset::{parse_date, parsed_date, OHLCBar};

verus! {

/// `std::num::ParseIntError`, why a text is no whole number. The verifier
/// sees nothing of what a value holds.
#[verifier::external_type_specification]
#[verifier::external_body]
pub struct ExParseIntError(ParseIntError);

/// `std::num::ParseFloatError`, why a text is no number with a fraction. The
/// verifier sees nothing of what a value holds.
#[verifier::external_type_specification]
#[verifier::external_body]
pub struct ExParseFloatError(ParseFloatError);

/// The number that `str::parse` reads from `text` as a `u32`, and `None`
/// where it reads none.
pub uninterp spec fn parsed_u32(text: Seq<char>) -> Option<u32>;

/// `str::parse::<u32>`: the number that `text` holds, or why it holds none.
/// What is read is a function of the text alone.
#[verifier::external_body]
fn parse_u32(text: &str) -> (parsed: Result<u32, ParseIntError>)
    ensures
        match parsed {
            Ok(number) => parsed_u32(text@) == Some(number),
            Err(_) => parsed_u32(text@) is None,
        },
{
    text.parse::<u32>()
}

/// What can be wrong with a record.
#[derive(Debug)]
pub enum CsvLoaderError {
    /// The first field is no date.
    ParseDateError(ParseError),
    /// One of the five fields behind the date is no price.
    ParseFloatError(ParseFloatError),
    /// The last field is no volume.
    ParseIntError(ParseIntError),
}

/// Whether `price` may give `out` for a field that reads `text`.
pub open spec fn price_parses<P: Fn(&str) -> Result<u32, ParseFloatError>>(
    price: &P,
    text: Seq<char>,
    out: Result<u32, ParseFloatError>,
) -> bool {
    exists|field: &str| field@ == text && #[trigger] call_ensures(*price, (field,), out)
}

/// Whether `price` may read a price from a field that reads `text`.
pub open spec fn price_reads<P: Fn(&str) -> Result<u32, ParseFloatError>>(
    price: &P,
    text: Seq<char>,
) -> bool {
    exists|value: u32| #[trigger] price_parses(price, text, Ok(value))
}

/// The text of the field at position `at`.
pub open spec fn field(fields: Seq<String>, at: int) -> Seq<char> {
    fields[at]@
}

/// Whether the record `fields` may give `made` when `price` reads its
/// prices. The fields are read in their order: the date, written as year,
/// month and day; the opening, the highest, the lowest, the closing and the
/// adjusted closing price; the volume. The first field that cannot be read
/// decides the failure.
pub open spec fn record_gives<P: Fn(&str) -> Result<u32, ParseFloatError>>(
    fields: Seq<String>,
    price: &P,
    made: Result<OHLCBar, CsvLoaderError>,
) -> bool {
    match made {
        Ok(bar) => {
            &&& parsed_date(field(fields, 0), "%F"@) == Some(bar.bardate@)
            &&& price_parses(price, field(fields, 1), Ok(bar.open))
            &&& price_parses(price, field(fields, 2), Ok(bar.high))
            &&& price_parses(price, field(fields, 3), Ok(bar.low))
            &&& price_parses(price, field(fields, 4), Ok(bar.close))
            &&& price_parses(price, field(fields, 5), Ok(bar.adj_close))
            &&& parsed_u32(field(fields, 6)) == Some(bar.volume)
        },
        Err(CsvLoaderError::ParseDateError(_)) => parsed_date(field(fields, 0), "%F"@) is None,
        Err(CsvLoaderError::ParseFloatError(error)) => {
            &&& parsed_date(field(fields, 0), "%F"@) is Some
            &&& exists|at: int|
                {
                    &&& 1 <= at <= 5
                    &&& #[trigger] price_parses(price, field(fields, at), Err(error))
                    &&& forall|before: int|
                        1 <= before < at ==> price_reads(price, #[trigger] field(fields, before))
                }
        },
        Err(CsvLoaderError::ParseIntError(_)) => {
            &&& parsed_date(field(fields, 0), "%F"@) is Some
            &&& forall|at: int| 1 <= at <= 5 ==> price_reads(price, #[trigger] field(fields, at))
            &&& parsed_u32(field(fields, 6)) is None
        },
    }
}

/// Whether `price` may be called on each of the five fields behind the
/// first.
pub open spec fn reads_prices<P: Fn(&str) -> Result<u32, ParseFloatError>>(
    fields: Seq<String>,
    price: &P,
) -> bool {
    forall|at: int, text: &str|
        1 <= at <= 5 && text@ == #[trigger] field(fields, at) ==> #[trigger] call_requires(
            *price,
            (text,),
        )
}

/// Reads the price in the field at position `at`.
fn price_at<P: Fn(&str) -> Result<u32, ParseFloatError>>(fields: &[String], at: usize, price: &P) -> (read:
    Result<u32, ParseFloatError>)
    requires
        1 <= at <= 5,
        at < fields@.len(),
        reads_prices(fields@, price),
    ensures
        price_parses(price, field(fields@, at as int), read),
        read is Ok ==> price_reads(price, field(fields@, at as int)),
{
    let text = fields[at].as_str();
    assert(text@ == field(fields@, at as int));
    let read = price(text);
    proof {
        if read is Ok {
            assert(price_parses(price, field(fields@, at as int), Ok(read->Ok_0)));
        }
    }
    read
}

impl OHLCBar {
    /// The bar that a record of seven fields holds. `price` reads a price
    /// from the text of a field.
    pub fn from_record<P: Fn(&str) -> Result<u32, ParseFloatError>>(fields: &[String], price: &P) -> (made:
        Result<OHLCBar, CsvLoaderError>)
        requires
            fields@.len() >= 7,
            reads_prices(fields@, price),
        ensures
            record_gives(fields@, price, made),
    {
        let bardate = match parse_date(fields[0].as_str(), "%F") {
            Ok(date) => date,
            Err(error) => {
                return Err(CsvLoaderError::ParseDateError(error));
            },
        };
        let open = match price_at(fields, 1, price) {
            Ok(value) => value,
            Err(error) => {
                let failed = Err(CsvLoaderError::ParseFloatError(error));
                assert(failed matches Err(CsvLoaderError::ParseFloatError(e)) && price_parses(
                    price,
                    field(fields@, 1),
                    Err(e),
                ));
                return failed;
            },
        };
        let high = match price_at(fields, 2, price) {
            Ok(value) => value,
            Err(error) => {
                let failed = Err(CsvLoaderError::ParseFloatError(error));
                assert(failed matches Err(CsvLoaderError::ParseFloatError(e)) && price_parses(
                    price,
                    field(fields@, 2),
                    Err(e),
                ));
                return failed;
            },
        };
        let low = match price_at(fields, 3, price) {
            Ok(value) => value,
            Err(error) => {
                let failed = Err(CsvLoaderError::ParseFloatError(error));
                assert(failed matches Err(CsvLoaderError::ParseFloatError(e)) && price_parses(
                    price,
                    field(fields@, 3),
                    Err(e),
                ));
                return failed;
            },
        };
        let close = match price_at(fields, 4, price) {
            Ok(value) => value,
            Err(error) => {
                let failed = Err(CsvLoaderError::ParseFloatError(error));
                assert(failed matches Err(CsvLoaderError::ParseFloatError(e)) && price_parses(
                    price,
                    field(fields@, 4),
                    Err(e),
                ));
                return failed;
            },
        };
        let adj_close = match price_at(fields, 5, price) {
            Ok(value) => value,
            Err(error) => {
                let failed = Err(CsvLoaderError::ParseFloatError(error));
                assert(failed matches Err(CsvLoaderError::ParseFloatError(e)) && price_parses(
                    price,
                    field(fields@, 5),
                    Err(e),
                ));
                return failed;
            },
        };
        let volume = match parse_u32(fields[6].as_str()) {
            Ok(number) => number,
            Err(error) => {
                return Err(CsvLoaderError::ParseIntError(error));
            },
        };
        Ok(OHLCBar { bardate, open, low, high, close, adj_close, volume })
    }
}

} // verus!
