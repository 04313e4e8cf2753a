//! Where histories of raw bars come from.
use vstd::prelude::*;

use super::asset::{OHLCBar, Symbol};

pub mod csv_loader;

verus! {

/// A source of raw histories. A loader gives the whole history of a symbol,
/// oldest bar first, or fails with an error of its own.
pub trait DataLoader {
    /// What a failed load gives.
    type Error;

    /// Whether `load_symbol` may give `out` for `symbol`. Nothing is known of
    /// a loader that does not say more.
    open spec fn may_load(&self, symbol: &Symbol, out: Result<Vec<OHLCBar>, Self::Error>) -> bool {
        true
    }

    /// The history of `symbol`, oldest bar first.
    fn load_symbol(&self, symbol: &Symbol) -> (out: Result<Vec<OHLCBar>, Self::Error>)
        ensures
            self.may_load(symbol, out),
    ;
}

} // verus!
