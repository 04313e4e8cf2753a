use std::collections::HashMap;

use chrono::NaiveDate;
use rusttester::data::asset::{BarDate, GetBarDate, OHLCBar, Symbol};
use rusttester::data::data_loader::DataLoader;
use rusttester::data::feed::{LatestFeed, SourceFeed, TruncateFeed, UpdateFeed};
use rusttester::data::indicator::ema::{Ema, EmaBar};
use rusttester::data::indicator::ind::Ind;
use rusttester::data::indicator::sma::{Sma, SmaBar};
use rusttester::data::indicator::{Calculation, Indicator};
use rusttester::data::DataError;

struct TestLoader {
    data: HashMap<Symbol, Vec<OHLCBar>>,
}

impl From<HashMap<Symbol, Vec<OHLCBar>>> for TestLoader {
    fn from(data: HashMap<Symbol, Vec<OHLCBar>>) -> Self {
        Self { data }
    }
}

impl DataLoader for TestLoader {
    type Error = DataError;

    fn load_symbol(&self, symbol: &Symbol) -> Result<Vec<OHLCBar>, DataError> {
        if self.data.is_empty() {
            let data = vec![OHLCBar::default(), OHLCBar::default(), OHLCBar::default()];
            Ok(data)
        } else {
            let data = self.data.get(symbol).unwrap().iter().cloned().collect::<Vec<_>>();
            Ok(data)
        }
    }
}

fn mean(window: &[u32]) -> u32 {
    let sum: f32 = window.iter().map(|bits| f32::from_bits(*bits)).sum();
    (sum / window.len() as f32).to_bits()
}

fn smooth(factor: usize, before: Option<u32>, window: &[u32]) -> u32 {
    match before {
        None => mean(window),
        Some(bits) => {
            let weight = factor as f32;
            let close = f32::from_bits(window[window.len() - 1]);
            (close * weight + f32::from_bits(bits) * (1.0 - weight)).to_bits()
        }
    }
}

fn day(year: i32, month: u32, day: u32) -> BarDate {
    BarDate::from(NaiveDate::from_ymd_opt(year, month, day).unwrap())
}

fn closing(date: BarDate, close: f32) -> OHLCBar {
    OHLCBar { bardate: date, close: close.to_bits(), ..OHLCBar::default() }
}

fn five_bars() -> Vec<OHLCBar> {
    vec![
        closing(day(2021, 5, 1), 1.0),
        closing(day(2021, 5, 2), 2.0),
        closing(day(2021, 5, 3), 3.0),
        closing(day(2021, 5, 4), 2.0),
        closing(day(2021, 5, 5), 1.0),
    ]
}

#[test]
fn test_simple_moving_average() {
    let symbol = Symbol::from("IVV");
    let mut mock_data = HashMap::new();
    mock_data.insert(
        symbol.clone(),
        vec![
            OHLCBar {
                bardate: BarDate::from(NaiveDate::from_ymd_opt(2021, 5, 1).unwrap()),
                close: 1.0f32.to_bits(),
                ..OHLCBar::default()
            },
            OHLCBar {
                bardate: BarDate::from(NaiveDate::from_ymd_opt(2021, 5, 2).unwrap()),
                close: 2.0f32.to_bits(),
                ..OHLCBar::default()
            },
            OHLCBar {
                bardate: BarDate::from(NaiveDate::from_ymd_opt(2021, 5, 3).unwrap()),
                close: 3.0f32.to_bits(),
                ..OHLCBar::default()
            },
            OHLCBar {
                bardate: BarDate::from(NaiveDate::from_ymd_opt(2021, 5, 4).unwrap()),
                close: 2.0f32.to_bits(),
                ..OHLCBar::default()
            },
            OHLCBar {
                bardate: BarDate::from(NaiveDate::from_ymd_opt(2021, 5, 5).unwrap()),
                close: 1.0f32.to_bits(),
                ..OHLCBar::default()
            },
        ],
    );

    let test_loader = TestLoader::from(mock_data);
    let bars = test_loader.load_symbol(&symbol).unwrap();

    let mut sma = Sma::new(&symbol, 3, mean);

    let start_date = sma.fill(&bars).unwrap();
    assert_eq!(start_date, BarDate::from(NaiveDate::from_ymd_opt(2021, 5, 3).unwrap()));

    let mut output = sma.source().unwrap().iter();
    assert!((f32::from_bits(output.next().unwrap().value) - 2.0).abs() <= 0.0001);
    assert!((f32::from_bits(output.next().unwrap().value) - 2.3333).abs() <= 0.0001);
    assert!((f32::from_bits(output.next().unwrap().value) - 2.0).abs() <= 0.0001);
}

#[test]
fn test_exponential_moving_average() {
    let symbol = Symbol::from("IVV");
    let mut mock_data = HashMap::new();
    mock_data.insert(
        symbol.clone(),
        vec![
            OHLCBar {
                bardate: BarDate::from(NaiveDate::from_ymd_opt(2021, 5, 1).unwrap()),
                close: 1.0f32.to_bits(),
                ..OHLCBar::default()
            },
            OHLCBar {
                bardate: BarDate::from(NaiveDate::from_ymd_opt(2021, 5, 2).unwrap()),
                close: 2.0f32.to_bits(),
                ..OHLCBar::default()
            },
            OHLCBar {
                bardate: BarDate::from(NaiveDate::from_ymd_opt(2021, 5, 3).unwrap()),
                close: 3.0f32.to_bits(),
                ..OHLCBar::default()
            },
            OHLCBar {
                bardate: BarDate::from(NaiveDate::from_ymd_opt(2021, 5, 4).unwrap()),
                close: 2.0f32.to_bits(),
                ..OHLCBar::default()
            },
            OHLCBar {
                bardate: BarDate::from(NaiveDate::from_ymd_opt(2021, 5, 5).unwrap()),
                close: 1.0f32.to_bits(),
                ..OHLCBar::default()
            },
        ],
    );

    let test_loader = TestLoader::from(mock_data);
    let bars = test_loader.load_symbol(&symbol).unwrap();

    let mut ema = Ema::new(&symbol, 3, None, smooth);

    let start_date = ema.fill(&bars).unwrap();
    assert_eq!(start_date, BarDate::from(NaiveDate::from_ymd_opt(2021, 5, 3).unwrap()));

    let mut output = ema.source().unwrap().iter();
    assert!((f32::from_bits(output.next().unwrap().value) - 2.0).abs() <= 0.0001);
    assert!((f32::from_bits(output.next().unwrap().value) - 2.0).abs() <= 0.0001);
    assert!((f32::from_bits(output.next().unwrap().value) - 2.0).abs() <= 0.0001);
}

#[test]
fn window_of_three_over_five_bars() {
    let symbol = Symbol::from("IVV");
    let mut sma = Sma::new(&symbol, 3, mean);
    assert_eq!(sma.fill(&five_bars()), Ok(day(2021, 5, 3)));
    let records = sma.source().unwrap();
    assert_eq!(records.len(), 3);
    let dates: Vec<BarDate> = records.iter().map(|record| record.bardate()).collect();
    assert_eq!(dates, vec![day(2021, 5, 3), day(2021, 5, 4), day(2021, 5, 5)]);
    let values: Vec<f32> = records.iter().map(|record| f32::from_bits(record.value)).collect();
    assert_eq!(values[0], 2.0);
    assert_eq!(values[1], 7.0 / 3.0);
    assert_eq!(values[2], 2.0);
}

#[test]
fn window_of_three_over_two_bars() {
    let symbol = Symbol::from("IVV");
    let bars = five_bars();
    let mut sma = Sma::new(&symbol, 3, mean);
    assert_eq!(sma.fill(&bars[..2]), Err(DataError::NotEnoughSource));
    assert!(!sma.update());
    assert_eq!(sma.source().unwrap().len(), 0);
    let mut ema = Ema::new(&symbol, 3, None, smooth);
    assert_eq!(ema.fill(&bars[..2]), Err(DataError::NotEnoughSource));
}

#[test]
fn sma_calculate_windows() {
    let bars = five_bars();
    let all = Sma::calculate(&5, &bars, &mean).unwrap();
    assert_eq!(all.len(), 1);
    assert_eq!(all[0].bardate, day(2021, 5, 5));
    assert_eq!(f32::from_bits(all[0].value), 1.8);
    let each = Sma::calculate(&1, &bars, &mean).unwrap();
    assert_eq!(each.len(), 5);
    assert_eq!(each[0].bardate, day(2021, 5, 1));
    assert_eq!(f32::from_bits(each[2].value), 3.0);
    assert_eq!(Sma::calculate(&6, &bars, &mean).unwrap_err(), DataError::NotEnoughSource);
    assert_eq!(Sma::calculate(&0, &bars, &mean).unwrap().len(), 0);
    assert_eq!(Sma::calculate(&0, &[], &mean).unwrap().len(), 0);
    assert_eq!(Sma::calculate(&1, &[], &mean).unwrap_err(), DataError::NotEnoughSource);
}

#[test]
fn window_of_nothing_gives_no_record() {
    let symbol = Symbol::from("IVV");
    let mut sma = Sma::new(&symbol, 0, mean);
    assert_eq!(sma.fill(&five_bars()), Err(DataError::NotEnoughSource));
}

#[test]
fn ema_hands_the_value_before_to_the_next() {
    let seen = |factor: usize, before: Option<u32>, window: &[u32]| -> u32 {
        match before {
            None => 100 + factor as u32 + window.len() as u32,
            Some(value) => value + 1,
        }
    };
    let records = Ema::calculate(&(2, 7), &five_bars(), &seen).unwrap();
    let values: Vec<u32> = records.iter().map(|record| record.value).collect();
    assert_eq!(values, vec![104, 105, 106, 107]);
    assert_eq!(records[0].bardate, day(2021, 5, 2));
    assert_eq!(records[3].bardate, day(2021, 5, 5));
}

#[test]
fn ema_smoothing_factor() {
    type Smooth = fn(usize, Option<u32>, &[u32]) -> u32;
    assert_eq!(Ema::<Smooth>::smoothing_factor(&(3, 2)), 0);
    assert_eq!(Ema::<Smooth>::smoothing_factor(&(1, 4)), 2);
    assert_eq!(Ema::<Smooth>::smoothing_factor(&(0, 9)), 9);
    assert_eq!(Ema::<Smooth>::smoothing_factor(&(usize::MAX, usize::MAX)), 0);
}

#[test]
fn ema_with_a_real_factor() {
    let symbol = Symbol::from("IVV");
    let mut ema = Ema::new(&symbol, 1, Some(1), smooth);
    // factor 1 / (1 + 1) is 0 in whole numbers: every value is the first one
    assert_eq!(ema.fill(&five_bars()), Ok(day(2021, 5, 1)));
    let values: Vec<f32> =
        ema.source().unwrap().iter().map(|record| f32::from_bits(record.value)).collect();
    assert_eq!(values, vec![1.0, 1.0, 1.0, 1.0, 1.0]);
    let mut follow = Ema::new(&symbol, 1, Some(2), smooth);
    // factor 2 / (1 + 1) is 1: every value is the close of its bar
    assert_eq!(follow.fill(&five_bars()), Ok(day(2021, 5, 1)));
    let values: Vec<f32> =
        follow.source().unwrap().iter().map(|record| f32::from_bits(record.value)).collect();
    assert_eq!(values, vec![1.0, 2.0, 3.0, 2.0, 1.0]);
}

#[test]
fn fill_twice_fails() {
    let symbol = Symbol::from("IVV");
    let mut sma = Sma::new(&symbol, 3, mean);
    assert_eq!(sma.fill(&five_bars()), Ok(day(2021, 5, 3)));
    assert_eq!(sma.fill(&five_bars()), Err(DataError::IndicatorAlreadyFilled));
    assert_eq!(sma.source().unwrap().len(), 3);
    assert!(sma.update());
    assert_eq!(sma.fill(&five_bars()), Err(DataError::IndicatorAlreadyFilled));
    assert_eq!(sma.latest().unwrap().bardate, day(2021, 5, 3));
}

#[test]
fn fill_after_a_failed_fill_fails() {
    let symbol = Symbol::from("IVV");
    let bars = five_bars();
    let mut sma = Sma::new(&symbol, 3, mean);
    assert_eq!(sma.fill(&bars[..1]), Err(DataError::NotEnoughSource));
    assert_eq!(sma.fill(&bars), Err(DataError::IndicatorAlreadyFilled));
    assert_eq!(sma.source().unwrap().len(), 0);
}

#[test]
fn unfilled_indicator_is_an_empty_feed() {
    let symbol = Symbol::from("IVV");
    let mut sma = Sma::new(&symbol, 3, mean);
    assert_eq!(sma.symbol(), &symbol);
    assert!(!sma.update());
    assert!(sma.latest().is_none());
    assert!(sma.latest_n(4).is_empty());
    assert_eq!(sma.source().unwrap().len(), 0);
    assert_eq!(sma.truncate(day(2021, 5, 4)), Ok(()));
    assert_eq!(sma.fill(&five_bars()), Ok(day(2021, 5, 3)));
}

#[test]
fn filled_indicator_replays_like_a_feed() {
    let symbol = Symbol::from("IVV");
    let mut sma = Sma::new(&symbol, 2, mean);
    assert_eq!(sma.fill(&five_bars()), Ok(day(2021, 5, 2)));
    assert_eq!(sma.truncate(day(2021, 5, 4)), Ok(()));
    assert_eq!(sma.source().unwrap().len(), 2);
    assert!(sma.update());
    assert_eq!(sma.latest().unwrap().bardate, day(2021, 5, 4));
    assert_eq!(f32::from_bits(sma.latest().unwrap().value), 2.5);
    assert!(sma.source().is_none());
    assert_eq!(sma.truncate(day(2021, 5, 5)), Err(DataError::SourceLocked));
    assert!(sma.update());
    let dates: Vec<BarDate> = sma.latest_n(5).iter().map(|record| record.bardate).collect();
    assert_eq!(dates, vec![day(2021, 5, 5), day(2021, 5, 4)]);
    assert!(!sma.update());
}

#[test]
fn indicator_from_a_closure() {
    let symbol = Symbol::from("TLT");
    let scale = 3u32;
    let filler = move |params: &u32, bars: &[OHLCBar]| -> Result<Vec<SmaBar>, DataError> {
        Ok(bars
            .iter()
            .map(|bar| SmaBar { bardate: bar.bardate, value: bar.volume * params * scale })
            .collect())
    };
    let mut tripled = Ind::new(&symbol, 2u32, filler);
    let bars = vec![
        OHLCBar { bardate: day(2021, 5, 1), volume: 5, ..OHLCBar::default() },
        OHLCBar { bardate: day(2021, 5, 2), volume: 7, ..OHLCBar::default() },
    ];
    assert_eq!(tripled.fill(&bars), Ok(day(2021, 5, 1)));
    let values: Vec<u32> = tripled.source().unwrap().iter().map(|record| record.value).collect();
    assert_eq!(values, vec![30, 42]);
}

#[test]
fn calculation_failure_is_handed_on() {
    let symbol = Symbol::from("TLT");
    let filler = |_: &(), _: &[OHLCBar]| -> Result<Vec<EmaBar>, DataError> {
        Err(DataError::UnknownSeries)
    };
    let mut failing = Ind::new(&symbol, (), filler);
    assert_eq!(failing.fill(&five_bars()), Err(DataError::UnknownSeries));
    assert_eq!(failing.fill(&five_bars()), Err(DataError::IndicatorAlreadyFilled));
    let nothing = |_: &(), _: &[OHLCBar]| -> Result<Vec<EmaBar>, DataError> { Ok(Vec::new()) };
    let mut empty = Ind::new(&symbol, (), nothing);
    assert_eq!(empty.fill(&five_bars()), Err(DataError::NotEnoughSource));
}

#[test]
fn closures_are_calculations() {
    let double = |params: &u32, bars: &[OHLCBar]| -> Result<Vec<SmaBar>, DataError> {
        Ok(bars.iter().map(|bar| SmaBar { bardate: bar.bardate, value: *params * 2 }).collect())
    };
    let out = double.calculate(&4, &five_bars()).unwrap();
    assert_eq!(out.len(), 5);
    assert_eq!(out[4].value, 8);
}

#[derive(Debug, Clone, PartialEq)]
struct Range {
    on: BarDate,
    width: f32,
}

impl GetBarDate for Range {
    fn date(&self) -> BarDate {
        self.on
    }

    fn bardate(&self) -> BarDate {
        self.on
    }
}

#[test]
fn records_of_another_kind() {
    let symbol = Symbol::from("TLT");
    let ranges = |_: &(), bars: &[OHLCBar]| -> Result<Vec<Range>, DataError> {
        Ok(bars
            .iter()
            .map(|bar| Range {
                on: bar.bardate,
                width: f32::from_bits(bar.high) - f32::from_bits(bar.low),
            })
            .collect())
    };
    let mut widths = Ind::new(&symbol, (), ranges);
    let bars = vec![
        OHLCBar {
            bardate: day(2021, 5, 1),
            high: 3.0f32.to_bits(),
            low: 1.0f32.to_bits(),
            ..OHLCBar::default()
        },
        OHLCBar {
            bardate: day(2021, 5, 2),
            high: 4.5f32.to_bits(),
            low: 4.0f32.to_bits(),
            ..OHLCBar::default()
        },
    ];
    assert_eq!(widths.fill(&bars), Ok(day(2021, 5, 1)));
    assert_eq!(widths.truncate(day(2021, 5, 2)), Ok(()));
    assert!(widths.update());
    assert_eq!(widths.latest(), Some(&Range { on: day(2021, 5, 2), width: 0.5 }));
    assert!(!widths.update());
}
