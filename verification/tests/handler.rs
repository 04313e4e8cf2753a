use std::collections::HashMap;

use chrono::NaiveDate;
use rusttester::data::asset::{BarDate, OHLCBar, Symbol};
use rusttester::data::data_handler::DataHandler;
use rusttester::data::data_loader::DataLoader;
use rusttester::data::feed::{LatestFeed, SourceFeed, UpdateFeed};
use rusttester::data::indicator::sma::Sma;
use rusttester::data::indicator::Indicator;
use rusttester::data::DataError;

struct TestLoader {
    data: HashMap<Symbol, Vec<OHLCBar>>,
}

impl TestLoader {
    fn new() -> Self {
        let data = HashMap::new();
        Self { data }
    }
}

impl From<HashMap<Symbol, Vec<OHLCBar>>> for TestLoader {
    fn from(data: HashMap<Symbol, Vec<OHLCBar>>) -> Self {
        Self { data }
    }
}

impl DataLoader for TestLoader {
    type Error = String;

    fn load_symbol(&self, symbol: &Symbol) -> Result<Vec<OHLCBar>, String> {
        if self.data.is_empty() {
            let data = vec![OHLCBar::default(), OHLCBar::default(), OHLCBar::default()];
            Ok(data)
        } else {
            match self.data.get(symbol) {
                Some(bars) => Ok(bars.iter().cloned().collect::<Vec<_>>()),
                None => Err(format!("nothing to load for {}", symbol.as_str())),
            }
        }
    }
}

fn mean(window: &[u32]) -> u32 {
    let sum: f32 = window.iter().map(|bits| f32::from_bits(*bits)).sum();
    (sum / window.len() as f32).to_bits()
}

fn day(year: i32, month: u32, day: u32) -> BarDate {
    BarDate::from(NaiveDate::from_ymd_opt(year, month, day).unwrap())
}

fn bar(date: BarDate) -> OHLCBar {
    OHLCBar { bardate: date, ..OHLCBar::default() }
}

fn two_symbols() -> (Vec<Symbol>, TestLoader) {
    let mut data = HashMap::new();
    data.insert(
        Symbol::from("IVV"),
        vec![bar(day(2020, 1, 1)), bar(day(2020, 1, 2)), bar(day(2020, 1, 3))],
    );
    data.insert(Symbol::from("EFA"), vec![bar(day(2020, 1, 2)), bar(day(2020, 1, 3))]);
    (vec![Symbol::from("IVV"), Symbol::from("EFA")], TestLoader::from(data))
}

#[test]
fn test_data_handler() {
    let mut test_data = HashMap::new();
    test_data.insert(
        Symbol::from("IVV"),
        vec![
            OHLCBar {
                bardate: BarDate::from(NaiveDate::from_ymd_opt(2020, 01, 01).unwrap()),
                ..OHLCBar::default()
            },
            OHLCBar {
                bardate: BarDate::from(NaiveDate::from_ymd_opt(2020, 01, 02).unwrap()),
                ..OHLCBar::default()
            },
            OHLCBar {
                bardate: BarDate::from(NaiveDate::from_ymd_opt(2020, 01, 03).unwrap()),
                ..OHLCBar::default()
            },
        ],
    );

    test_data.insert(
        Symbol::from("EFA"),
        vec![
            OHLCBar {
                bardate: BarDate::from(NaiveDate::from_ymd_opt(2020, 01, 02).unwrap()),
                ..OHLCBar::default()
            },
            OHLCBar {
                bardate: BarDate::from(NaiveDate::from_ymd_opt(2020, 01, 03).unwrap()),
                ..OHLCBar::default()
            },
        ],
    );

    let loader = TestLoader::from(test_data);
    let symbols = vec![Symbol::from("IVV"), Symbol::from("EFA")];
    let mut handler = DataHandler::new(&symbols, &loader).unwrap();

    // Handler only has two bars
    assert!(handler.update());
    assert!(handler.update());
    assert!(!handler.update());

    let bars = handler.ohlc_n(&symbols[0], 10).unwrap();
    assert_eq!(bars.len(), 2);
}

#[test]
fn feeds_start_on_the_common_date() {
    let (symbols, loader) = two_symbols();
    let mut handler = DataHandler::new(&symbols, &loader).unwrap();
    assert!(handler.ohlc(&symbols[0]).is_none());
    assert!(handler.ohlc(&symbols[1]).is_none());
    assert!(handler.ohlc_n(&symbols[0], 3).unwrap().is_empty());

    assert!(handler.update());
    assert_eq!(handler.ohlc(&symbols[0]).unwrap().bardate, day(2020, 1, 2));
    assert_eq!(handler.ohlc(&symbols[1]).unwrap().bardate, day(2020, 1, 2));

    assert!(handler.update());
    assert_eq!(handler.ohlc(&symbols[0]).unwrap().bardate, day(2020, 1, 3));
    assert_eq!(handler.ohlc(&symbols[1]).unwrap().bardate, day(2020, 1, 3));

    assert!(!handler.update());
    assert!(!handler.update());
    assert_eq!(handler.ohlc(&symbols[0]).unwrap().bardate, day(2020, 1, 3));
    let dates: Vec<BarDate> =
        handler.ohlc_n(&symbols[0], 10).unwrap().iter().map(|bar| bar.bardate).collect();
    assert_eq!(dates, vec![day(2020, 1, 3), day(2020, 1, 2)]);
    let one: Vec<BarDate> =
        handler.ohlc_n(&symbols[1], 1).unwrap().iter().map(|bar| bar.bardate).collect();
    assert_eq!(one, vec![day(2020, 1, 3)]);
}

#[test]
fn unknown_symbol_has_no_bars() {
    let (symbols, loader) = two_symbols();
    let mut handler = DataHandler::new(&symbols, &loader).unwrap();
    assert!(handler.update());
    let other = Symbol::from("TLT");
    assert!(handler.ohlc(&other).is_none());
    assert!(handler.ohlc_n(&other, 2).is_none());
    assert!(handler.ohlc(&Symbol::from("ivv")).is_none());
}

#[test]
fn loader_failure_is_handed_on() {
    let (_, loader) = two_symbols();
    let symbols = vec![Symbol::from("IVV"), Symbol::from("TLT"), Symbol::from("EFA")];
    match DataHandler::new(&symbols, &loader) {
        Ok(_) => panic!("a symbol without data was loaded"),
        Err(error) => assert_eq!(error, "nothing to load for TLT"),
    }
}

#[test]
fn handler_without_symbols_always_advances() {
    let loader = TestLoader::new();
    let mut handler = DataHandler::new(&[], &loader).unwrap();
    assert!(handler.update());
    assert!(handler.update());
    assert!(handler.ohlc(&Symbol::from("IVV")).is_none());
}

#[test]
fn default_loader_gives_three_bars() {
    let loader = TestLoader::new();
    let symbols = vec![Symbol::from("IVV")];
    let mut handler = DataHandler::new(&symbols, &loader).unwrap();
    assert!(handler.update());
    assert!(handler.update());
    assert!(handler.update());
    assert!(!handler.update());
    assert_eq!(handler.ohlc_n(&symbols[0], 9).unwrap().len(), 3);
}

#[test]
fn shortest_feed_ends_the_replay() {
    let ivv = Symbol::from("IVV");
    let efa = Symbol::from("EFA");
    let tlt = Symbol::from("TLT");
    let mut handler = DataHandler::from_histories(vec![
        (ivv.clone(), vec![bar(day(2020, 1, 2)), bar(day(2020, 1, 3)), bar(day(2020, 1, 6))]),
        (efa.clone(), vec![bar(day(2020, 1, 2))]),
        (tlt.clone(), vec![bar(day(2020, 1, 2)), bar(day(2020, 1, 3))]),
    ]);
    assert!(handler.update());
    // the first feed advances before the exhausted one is met, and stays advanced
    assert!(!handler.update());
    assert_eq!(handler.ohlc(&ivv).unwrap().bardate, day(2020, 1, 3));
    assert_eq!(handler.ohlc(&efa).unwrap().bardate, day(2020, 1, 2));
    assert_eq!(handler.ohlc(&tlt).unwrap().bardate, day(2020, 1, 2));
    assert!(!handler.update());
    assert_eq!(handler.ohlc(&ivv).unwrap().bardate, day(2020, 1, 6));
    assert_eq!(handler.ohlc(&tlt).unwrap().bardate, day(2020, 1, 2));
    assert!(!handler.update());
    assert_eq!(handler.ohlc_n(&ivv, 9).unwrap().len(), 3);
}

#[test]
fn empty_history_does_not_move_the_start() {
    let ivv = Symbol::from("IVV");
    let efa = Symbol::from("EFA");
    let mut handler = DataHandler::from_histories(vec![
        (ivv.clone(), vec![bar(day(2020, 1, 1)), bar(day(2020, 1, 2))]),
        (efa.clone(), Vec::new()),
    ]);
    assert!(!handler.update());
    assert_eq!(handler.ohlc(&ivv).unwrap().bardate, day(2020, 1, 1));
    assert!(handler.ohlc(&efa).is_none());
    assert!(handler.ohlc_n(&efa, 1).unwrap().is_empty());
}

#[test]
fn later_history_replaces_the_earlier_one() {
    let ivv = Symbol::from("IVV");
    let mut handler = DataHandler::from_histories(vec![
        (ivv.clone(), vec![bar(day(2020, 1, 5)), bar(day(2020, 1, 6))]),
        (ivv.clone(), vec![bar(day(2020, 1, 1)), bar(day(2020, 1, 5)), bar(day(2020, 1, 7))]),
    ]);
    assert!(handler.update());
    assert_eq!(handler.ohlc(&ivv).unwrap().bardate, day(2020, 1, 5));
    assert!(handler.update());
    assert_eq!(handler.ohlc(&ivv).unwrap().bardate, day(2020, 1, 7));
    assert!(!handler.update());
}

#[test]
fn fill_indicator_from_the_pending_history() {
    let (symbols, loader) = two_symbols();
    let handler = DataHandler::new(&symbols, &loader).unwrap();
    let mut sma = Sma::new(&symbols[0], 2, mean);
    // the bar of January 1 was cut away, so the first window ends on January 3
    assert_eq!(handler.fill_indicator(&mut sma), Ok(day(2020, 1, 3)));
    assert_eq!(sma.source().unwrap().len(), 1);
    assert!(sma.update());
    assert_eq!(sma.latest().unwrap().bardate, day(2020, 1, 3));
    assert_eq!(handler.fill_indicator(&mut sma), Err(DataError::IndicatorAlreadyFilled));
}

#[test]
fn fill_indicator_after_an_update_fails() {
    let (symbols, loader) = two_symbols();
    let mut handler = DataHandler::new(&symbols, &loader).unwrap();
    assert!(handler.update());
    let mut sma = Sma::new(&symbols[0], 2, mean);
    assert_eq!(handler.fill_indicator(&mut sma), Err(DataError::SourceLocked));
    let mut other = Sma::new(&symbols[1], 1, mean);
    assert_eq!(handler.fill_indicator(&mut other), Err(DataError::SourceLocked));
    // the calculation was not used: the indicator can still be filled
    let bars = vec![bar(day(2020, 2, 1)), bar(day(2020, 2, 2))];
    assert_eq!(sma.fill(&bars), Ok(day(2020, 2, 2)));
}

#[test]
fn fill_indicator_for_an_unknown_symbol_fails() {
    let (symbols, loader) = two_symbols();
    let handler = DataHandler::new(&symbols, &loader).unwrap();
    let mut sma = Sma::new(&Symbol::from("TLT"), 2, mean);
    assert_eq!(handler.fill_indicator(&mut sma), Err(DataError::UnknownSeries));
    assert_eq!(sma.symbol().as_str(), "TLT");
    let bars = vec![bar(day(2020, 2, 1)), bar(day(2020, 2, 2))];
    assert_eq!(sma.fill(&bars), Ok(day(2020, 2, 2)));
}

#[test]
fn fill_indicator_with_too_few_bars_fails() {
    let (symbols, loader) = two_symbols();
    let handler = DataHandler::new(&symbols, &loader).unwrap();
    let mut sma = Sma::new(&symbols[1], 3, mean);
    assert_eq!(handler.fill_indicator(&mut sma), Err(DataError::NotEnoughSource));
}
