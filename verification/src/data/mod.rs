//! Values, feeds, indicators, loaders and the handler that owns the raw feeds.
use vstd::prelude::*;

pub mod asset;
pub mod data_handler;
pub mod data_loader;
pub mod feed;
pub mod indicator;

verus! {

/// What can go wrong while data is prepared or replayed.
#[derive(Debug, Clone, Copy, PartialEq, Eq, Structural)]
pub enum DataError {
    /// A symbol is empty or longer than five characters.
    InvalidSymbol,
    /// A calculation produced nothing, or had fewer bars than its window.
    NotEnoughSource,
    /// The pending history was asked for, cut or fitted after replay began.
    SourceLocked,
    /// An indicator was filled a second time.
    IndicatorAlreadyFilled,
    /// The handler holds no feed for the symbol.
    UnknownSeries,
    /// A strategy without indicators was asked to fill them.
    NoIndicators,
}

impl DataError {
    /// The text that describes the error.
    pub open spec fn message(self) -> Seq<char> {
        match self {
            DataError::InvalidSymbol => "symbol must be shorter than 5 chars"@,
            DataError::NotEnoughSource => "Not enough source data"@,
            DataError::SourceLocked => "cant access data source after backtest start"@,
            DataError::IndicatorAlreadyFilled => "indicator is already filled"@,
            DataError::UnknownSeries => "no data for this symbol"@,
            DataError::NoIndicators => "strategy has no indicators"@,
        }
    }

    /// Renders the error as text.
    pub fn to_string(&self) -> (text: String)
        ensures
            text@ == self.message(),
    {
        match self {
            DataError::InvalidSymbol => "symbol must be shorter than 5 chars".to_owned(),
            DataError::NotEnoughSource => "Not enough source data".to_owned(),
            DataError::SourceLocked => "cant access data source after backtest start".to_owned(),
            DataError::IndicatorAlreadyFilled => "indicator is already filled".to_owned(),
            DataError::UnknownSeries => "no data for this symbol".to_owned(),
            DataError::NoIndicators => "strategy has no indicators".to_owned(),
        }
    }
}

} // verus!
