use std::num::ParseFloatError;

use chrono::NaiveDate;
use rusttester::data::asset::{BarDate, OHLCBar};
use rusttester::data::data_loader::csv_loader::CsvLoaderError;

fn price(text: &str) -> Result<u32, ParseFloatError> {
    text.parse::<f32>().map(f32::to_bits)
}

fn record(fields: [&str; 7]) -> Vec<String> {
    fields.iter().map(|field| field.to_string()).collect()
}

#[test]
fn record_gives_a_bar() {
    let fields = record(["2021-05-03", "1.5", "3.25", "1.25", "2.0", "1.75", "1200"]);
    let bar = OHLCBar::from_record(&fields, &price).unwrap();
    assert_eq!(bar.bardate, BarDate::from(NaiveDate::from_ymd_opt(2021, 5, 3).unwrap()));
    assert_eq!(f32::from_bits(bar.open), 1.5);
    assert_eq!(f32::from_bits(bar.high), 3.25);
    assert_eq!(f32::from_bits(bar.low), 1.25);
    assert_eq!(f32::from_bits(bar.close), 2.0);
    assert_eq!(f32::from_bits(bar.adj_close), 1.75);
    assert_eq!(bar.volume, 1200);
}

#[test]
fn more_fields_are_left_unread() {
    let mut fields = record(["2020-02-29", "1", "2", "3", "4", "5", "6"]);
    fields.push("not read".to_string());
    let bar = OHLCBar::from_record(&fields, &price).unwrap();
    assert_eq!(bar.bardate.num_days_from_ce(), 737_484);
    assert_eq!(bar.volume, 6);
}

#[test]
fn bad_date_fails_first() {
    let fields = record(["2021-02-30", "x", "3.25", "1.25", "2.0", "1.75", "-1"]);
    assert!(matches!(
        OHLCBar::from_record(&fields, &price),
        Err(CsvLoaderError::ParseDateError(_))
    ));
    let fields = record(["03/05/2021", "1.5", "3.25", "1.25", "2.0", "1.75", "1200"]);
    assert!(matches!(
        OHLCBar::from_record(&fields, &price),
        Err(CsvLoaderError::ParseDateError(_))
    ));
}

#[test]
fn bad_price_fails_before_the_volume() {
    for at in 1..=5 {
        let mut fields = record(["2021-05-03", "1.5", "3.25", "1.25", "2.0", "1.75", "many"]);
        fields[at] = "1,5".to_string();
        assert!(matches!(
            OHLCBar::from_record(&fields, &price),
            Err(CsvLoaderError::ParseFloatError(_))
        ));
    }
}

#[test]
fn bad_volume_fails() {
    for volume in ["", "-3", "1.5", "4294967296", "12 "] {
        let fields = record(["2021-05-03", "1.5", "3.25", "1.25", "2.0", "1.75", volume]);
        assert!(matches!(
            OHLCBar::from_record(&fields, &price),
            Err(CsvLoaderError::ParseIntError(_))
        ));
    }
    let fields = record(["2021-05-03", "1.5", "3.25", "1.25", "2.0", "1.75", "4294967295"]);
    assert_eq!(OHLCBar::from_record(&fields, &price).unwrap().volume, u32::MAX);
}

#[test]
fn prices_are_read_in_their_order() {
    let fields = record(["2021-05-03", "10", "20", "30", "40", "50", "60"]);
    let tenfold = |text: &str| -> Result<u32, ParseFloatError> {
        text.parse::<f32>().map(|number| number as u32 * 10)
    };
    let bar = OHLCBar::from_record(&fields, &tenfold).unwrap();
    assert_eq!(
        (bar.open, bar.high, bar.low, bar.close, bar.adj_close, bar.volume),
        (100, 200, 300, 400, 500, 60)
    );
}
