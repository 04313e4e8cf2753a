//! The handler: one feed of raw bars for each symbol, aligned at a common
//! first date and advanced together.
use vstd::prelude::*;

use super::asset::{BarDate, OHLCBar, Symbol};
use super::data_loader::DataLoader;
use super::feed::bar_feed::BarFeed;
use super::feed::{refers_to, FeedView};
use super::feed::{LatestFeed, TruncateFeed, UpdateFeed};
use super::indicator::Indicator;
use super::DataError;

verus! {

/// The later of a date that may be missing and a date.
pub open spec fn later(so_far: Option<BarDate>, date: BarDate) -> BarDate {
    match so_far {
        Some(found) => if date@ >= found@ {
            date
        } else {
            found
        },
        None => date,
    }
}

/// The latest of the dates of the first bars of `histories`, if any of them
/// has a bar.
pub open spec fn common_start(histories: Seq<Seq<OHLCBar>>) -> Option<BarDate>
    decreases histories.len(),
{
    if histories.len() == 0 {
        None
    } else {
        let before = common_start(histories.drop_last());
        if histories.last().len() == 0 {
            before
        } else {
            Some(later(before, histories.last().first().bardate))
        }
    }
}

/// The common start is the latest first date: no history begins after it,
/// and one begins on it. There is none if and only if no history has a bar.
pub proof fn law_common_start(histories: Seq<Seq<OHLCBar>>)
    ensures
        match common_start(histories) {
            Some(start) => {
                &&& forall|i: int|
                    0 <= i < histories.len() && (#[trigger] histories[i]).len() > 0
                        ==> histories[i].first().bardate@ <= start@
                &&& exists|i: int|
                    0 <= i < histories.len() && (#[trigger] histories[i]).len() > 0
                        && histories[i].first().bardate == start
            },
            None => forall|i: int| 0 <= i < histories.len() ==> (#[trigger] histories[i]).len() == 0,
        },
    decreases histories.len(),
{
    if histories.len() > 0 {
        let earlier = histories.drop_last();
        law_common_start(earlier);
        assert forall|i: int| 0 <= i < earlier.len() implies #[trigger] earlier[i] == histories[i] by {}
        let last = histories.len() - 1;
        if histories.last().len() > 0 {
            let start = common_start(histories)->Some_0;
            match common_start(earlier) {
                Some(before) => {
                    if histories[last].first().bardate@ >= before@ {
                        assert(histories[last].first().bardate == start);
                    } else {
                        let i = choose|i: int|
                            0 <= i < earlier.len() && (#[trigger] earlier[i]).len() > 0
                                && earlier[i].first().bardate == before;
                        assert(histories[i].len() > 0 && histories[i].first().bardate == start);
                    }
                },
                None => {
                    assert(histories[last].first().bardate == start);
                },
            }
            assert forall|i: int|
                0 <= i < histories.len() && (#[trigger] histories[i]).len() > 0 implies histories[i].first().bardate@
                <= start@ by {
                if i < last {
                    assert(earlier[i] == histories[i]);
                }
            }
        } else {
            match common_start(earlier) {
                Some(before) => {
                    let i = choose|i: int|
                        0 <= i < earlier.len() && (#[trigger] earlier[i]).len() > 0
                            && earlier[i].first().bardate == before;
                    assert(histories[i].len() > 0 && histories[i].first().bardate == before);
                    assert forall|i: int|
                        0 <= i < histories.len() && (#[trigger] histories[i]).len() > 0 implies histories[i].first().bardate@
                        <= before@ by {
                        if i < last {
                            assert(earlier[i] == histories[i]);
                        }
                    }
                },
                None => {
                    assert forall|i: int| 0 <= i < histories.len() implies (
                    #[trigger] histories[i]).len() == 0 by {
                        if i < last {
                            assert(earlier[i] == histories[i]);
                        }
                    }
                },
            }
        }
    }
}

/// The histories of `loaded`, without their symbols.
pub open spec fn histories(loaded: Seq<(Seq<char>, Seq<OHLCBar>)>) -> Seq<Seq<OHLCBar>> {
    loaded.map_values(|pair: (Seq<char>, Seq<OHLCBar>)| pair.1)
}

/// What a handler holds: the symbols in the order in which they were first
/// named, and the feed of each.
pub struct HandlerView {
    pub symbols: Seq<Seq<char>>,
    pub feeds: Seq<FeedView<OHLCBar>>,
}

impl HandlerView {
    /// A handler without symbols.
    pub open spec fn empty() -> Self {
        HandlerView { symbols: Seq::empty(), feeds: Seq::empty() }
    }

    /// Every symbol has one feed, and no symbol occurs twice.
    pub open spec fn well_formed(self) -> bool {
        &&& self.symbols.len() == self.feeds.len()
        &&& forall|i: int, j: int|
            0 <= i < j < self.symbols.len() ==> self.symbols[i] != self.symbols[j]
    }

    /// Where `symbol` stands, if the handler has it.
    pub open spec fn position(self, symbol: Seq<char>) -> Option<int> {
        if self.symbols.contains(symbol) {
            Some(self.symbols.index_of(symbol))
        } else {
            None
        }
    }

    /// The feed of `symbol`, if the handler has it.
    pub open spec fn feed_of(self, symbol: Seq<char>) -> Option<FeedView<OHLCBar>> {
        match self.position(symbol) {
            Some(at) => Some(self.feeds[at]),
            None => None,
        }
    }

    /// The handler with `history` as the untouched feed of `symbol`: in the
    /// place of the feed that `symbol` had, or behind all others.
    pub open spec fn with_history(self, symbol: Seq<char>, history: Seq<OHLCBar>) -> Self {
        match self.position(symbol) {
            Some(at) => HandlerView {
                symbols: self.symbols,
                feeds: self.feeds.update(at, FeedView::fresh(history)),
            },
            None => HandlerView {
                symbols: self.symbols.push(symbol),
                feeds: self.feeds.push(FeedView::fresh(history)),
            },
        }
    }

    /// The handler that holds the histories of `loaded`, taken in order.
    pub open spec fn of_histories(loaded: Seq<(Seq<char>, Seq<OHLCBar>)>) -> Self
        decreases loaded.len(),
    {
        if loaded.len() == 0 {
            Self::empty()
        } else {
            Self::of_histories(loaded.drop_last()).with_history(loaded.last().0, loaded.last().1)
        }
    }

    /// The handler with every feed cut at `cutoff`.
    pub open spec fn truncate(self, cutoff: BarDate) -> Self {
        HandlerView {
            symbols: self.symbols,
            feeds: Seq::new(self.feeds.len(), |i: int| self.feeds[i].truncate(cutoff)),
        }
    }

    /// The handler that is built from `loaded`: its histories, each cut at
    /// the latest of their first dates.
    pub open spec fn assemble(loaded: Seq<(Seq<char>, Seq<OHLCBar>)>) -> Self {
        let held = Self::of_histories(loaded);
        match common_start(histories(loaded)) {
            Some(start) => held.truncate(start),
            None => held,
        }
    }

    /// Every feed has something left to reveal.
    pub open spec fn can_advance(self) -> bool {
        forall|i: int| 0 <= i < self.feeds.len() ==> (#[trigger] self.feeds[i]).can_advance()
    }

    /// Whether the feeds before position `at` can all advance and the feed at
    /// `at`, if there is one, cannot.
    pub open spec fn stops_at(self, at: int) -> bool {
        &&& 0 <= at <= self.feeds.len()
        &&& forall|i: int| 0 <= i < at ==> (#[trigger] self.feeds[i]).can_advance()
        &&& at < self.feeds.len() ==> !self.feeds[at].can_advance()
    }

    /// The position of the first feed that has nothing left to reveal, or
    /// the number of feeds if there is none.
    pub open spec fn advancing(self) -> int {
        choose|at: int| self.stops_at(at)
    }

    /// The handler after one call to advance all feeds: the feeds before the
    /// first exhausted one have advanced, the others are as they were.
    pub open spec fn advance(self) -> Self {
        let reached = self.advancing();
        HandlerView {
            symbols: self.symbols,
            feeds: Seq::new(
                self.feeds.len(),
                |i: int| if i < reached { self.feeds[i].advance() } else { self.feeds[i] },
            ),
        }
    }

    /// The handler after `calls` calls to advance all feeds.
    pub open spec fn advance_by(self, calls: nat) -> Self
        decreases calls,
    {
        if calls == 0 {
            self
        } else {
            self.advance_by((calls - 1) as nat).advance()
        }
    }

    /// The handler that holds the histories of `loaded` is well formed; every
    /// symbol of `loaded` has a feed in it; and every feed is untouched and
    /// holds one of the histories.
    pub proof fn lemma_of_histories(loaded: Seq<(Seq<char>, Seq<OHLCBar>)>)
        ensures
            Self::of_histories(loaded).well_formed(),
            forall|k: int|
                0 <= k < loaded.len() ==> Self::of_histories(loaded).symbols.contains(
                    (#[trigger] loaded[k]).0,
                ),
            forall|i: int|
                0 <= i < Self::of_histories(loaded).feeds.len() ==> exists|k: int|
                    0 <= k < loaded.len() && #[trigger] Self::of_histories(loaded).feeds[i]
                        == FeedView::fresh((#[trigger] loaded[k]).1),
        decreases loaded.len(),
    {
        if loaded.len() > 0 {
            let earlier = loaded.drop_last();
            Self::lemma_of_histories(earlier);
            let before = Self::of_histories(earlier);
            let after = Self::of_histories(loaded);
            let last = loaded.len() - 1;
            let symbol = loaded.last().0;
            assert forall|k: int| 0 <= k < earlier.len() implies #[trigger] earlier[k] == loaded[k] by {}
            match before.position(symbol) {
                Some(at) => {
                    assert(before.symbols[at] == symbol);
                    assert forall|i: int| 0 <= i < after.feeds.len() implies exists|k: int|
                        0 <= k < loaded.len() && #[trigger] after.feeds[i] == FeedView::fresh(
                            (#[trigger] loaded[k]).1,
                        ) by {
                        if i == at {
                            assert(after.feeds[i] == FeedView::fresh(loaded[last].1));
                        } else {
                            let k = choose|k: int|
                                0 <= k < earlier.len() && #[trigger] before.feeds[i]
                                    == FeedView::fresh((#[trigger] earlier[k]).1);
                            assert(after.feeds[i] == FeedView::fresh(loaded[k].1));
                        }
                    }
                    assert forall|k: int| 0 <= k < loaded.len() implies after.symbols.contains(
                        (#[trigger] loaded[k]).0,
                    ) by {
                        if k < last {
                            assert(before.symbols.contains(earlier[k].0));
                        }
                    }
                },
                None => {
                    assert forall|i: int, j: int| 0 <= i < j < after.symbols.len() implies after.symbols[i]
                        != after.symbols[j] by {
                        if j == before.symbols.len() {
                            assert(before.symbols[i] == after.symbols[i]);
                        }
                    }
                    assert forall|i: int| 0 <= i < after.feeds.len() implies exists|k: int|
                        0 <= k < loaded.len() && #[trigger] after.feeds[i] == FeedView::fresh(
                            (#[trigger] loaded[k]).1,
                        ) by {
                        if i == before.feeds.len() {
                            assert(after.feeds[i] == FeedView::fresh(loaded[last].1));
                        } else {
                            let k = choose|k: int|
                                0 <= k < earlier.len() && #[trigger] before.feeds[i]
                                    == FeedView::fresh((#[trigger] earlier[k]).1);
                            assert(after.feeds[i] == FeedView::fresh(loaded[k].1));
                        }
                    }
                    assert forall|k: int| 0 <= k < loaded.len() implies after.symbols.contains(
                        (#[trigger] loaded[k]).0,
                    ) by {
                        if k < last {
                            assert(before.symbols.contains(earlier[k].0));
                            let i = before.symbols.index_of(earlier[k].0);
                            assert(after.symbols[i] == loaded[k].0);
                        } else {
                            assert(after.symbols[before.symbols.len() as int] == loaded[k].0);
                        }
                    }
                },
            }
        }
    }

    /// A handler is built so that all of its feeds begin on or after one
    /// date. The handler that is built from `loaded` is well formed and has a
    /// feed for every symbol of `loaded`; no feed has revealed anything; and
    /// no pending bar is dated before the latest date on which a history of
    /// `loaded` begins.
    pub proof fn law_assemble(loaded: Seq<(Seq<char>, Seq<OHLCBar>)>)
        ensures
            Self::assemble(loaded).well_formed(),
            forall|k: int|
                0 <= k < loaded.len() ==> Self::assemble(loaded).symbols.contains(
                    (#[trigger] loaded[k]).0,
                ),
            forall|i: int|
                0 <= i < Self::assemble(loaded).feeds.len() ==> (#[trigger] Self::assemble(
                    loaded,
                ).feeds[i]).untouched(),
            match common_start(histories(loaded)) {
                Some(start) => forall|i: int, j: int|
                    0 <= i < Self::assemble(loaded).feeds.len() && 0 <= j < Self::assemble(
                        loaded,
                    ).feeds[i].pending.len() ==> start@ <= (#[trigger] Self::assemble(
                        loaded,
                    ).feeds[i].pending[j]).bardate@,
                None => forall|i: int|
                    0 <= i < Self::assemble(loaded).feeds.len() ==> (#[trigger] Self::assemble(
                        loaded,
                    ).feeds[i]).pending.len() == 0,
            },
    {
        Self::lemma_of_histories(loaded);
        law_common_start(histories(loaded));
        let held = Self::of_histories(loaded);
        let built = Self::assemble(loaded);
        assert forall|i: int| 0 <= i < held.feeds.len() implies (#[trigger] held.feeds[i]).untouched() by {
            let k = choose|k: int|
                0 <= k < loaded.len() && #[trigger] held.feeds[i] == FeedView::fresh(
                    (#[trigger] loaded[k]).1,
                );
        }
        match common_start(histories(loaded)) {
            Some(start) => {
                assert forall|i: int, j: int|
                    0 <= i < built.feeds.len() && 0 <= j < built.feeds[i].pending.len() implies start@
                    <= (#[trigger] built.feeds[i].pending[j]).bardate@ by {
                    held.feeds[i].law_truncate(start);
                }
            },
            None => {
                assert forall|i: int| 0 <= i < built.feeds.len() implies (
                #[trigger] built.feeds[i]).pending.len() == 0 by {
                    let k = choose|k: int|
                        0 <= k < loaded.len() && #[trigger] held.feeds[i] == FeedView::fresh(
                            (#[trigger] loaded[k]).1,
                        );
                    assert(histories(loaded)[k].len() == 0);
                }
            },
        }
    }

    /// There is one position at which the advance of all feeds stops.
    pub proof fn lemma_stops_once(self, at: int)
        requires
            self.stops_at(at),
        ensures
            self.advancing() == at,
    {
        let chosen = self.advancing();
        assert(self.stops_at(chosen));
        if chosen < at {
            assert(self.feeds[chosen].can_advance());
        }
        if at < chosen {
            assert(self.feeds[at].can_advance());
        }
    }

    /// Among the feeds from position `from` on there is a first that cannot
    /// advance, unless all of them can.
    proof fn lemma_scan(self, from: int)
        requires
            0 <= from <= self.feeds.len(),
            forall|i: int| 0 <= i < from ==> (#[trigger] self.feeds[i]).can_advance(),
        ensures
            exists|at: int| self.stops_at(at),
        decreases self.feeds.len() - from,
    {
        if from == self.feeds.len() || !self.feeds[from].can_advance() {
            assert(self.stops_at(from));
        } else {
            self.lemma_scan(from + 1);
        }
    }

    /// The advance of all feeds stops at `advancing`.
    pub proof fn lemma_advancing(self)
        ensures
            self.stops_at(self.advancing()),
            self.can_advance() <==> self.advancing() == self.feeds.len(),
    {
        self.lemma_scan(0);
    }

    /// Once a feed is exhausted, no call to advance all feeds succeeds
    /// again: if the handler cannot advance all of its feeds now, it cannot
    /// after any number of further calls.
    pub proof fn law_exhausted_for_good(self, calls: nat)
        requires
            !self.can_advance(),
        ensures
            !self.advance_by(calls).can_advance(),
        decreases calls,
    {
        if calls > 0 {
            self.law_exhausted_for_good((calls - 1) as nat);
            let before = self.advance_by((calls - 1) as nat);
            before.lemma_advancing();
            let at = before.advancing();
            assert(before.advance().feeds[at] == before.feeds[at]);
        }
    }

    /// A feed that was advanced by a call to advance all feeds is locked
    /// afterwards: if `symbol` has a feed and that feed stands before the
    /// first exhausted one, then after the call the pending history of
    /// `symbol` cannot be read.
    pub proof fn lemma_advance_locks(self, symbol: Seq<char>)
        requires
            self.position(symbol) matches Some(at) && at < self.advancing(),
        ensures
            self.advance().feed_of(symbol) matches Some(feed) && feed.source() is None,
    {
        self.lemma_advancing();
        let at = self.position(symbol)->Some_0;
        assert(self.feeds[at].can_advance());
    }

    /// An indicator cannot be filled from a feed that a call to advance all
    /// feeds has advanced: if the symbol of `indicator` has a feed that
    /// stands before the first exhausted one, then after the call a fill
    /// from the handler fails with `SourceLocked` and leaves the indicator
    /// as it was.
    pub proof fn law_advance_locks<I: Indicator>(
        self,
        indicator: I,
        after: I,
        start: Result<BarDate, DataError>,
    )
        requires
            self.position(indicator.symbol_text()) matches Some(at) && at < self.advancing(),
            materializes(self.advance(), &indicator, &after, start),
        ensures
            start == Err::<BarDate, DataError>(DataError::SourceLocked),
            after == indicator,
    {
        self.lemma_advance_locks(indicator.symbol_text());
    }
}

/// Whether filling `before` from a handler that holds `handler` may turn it
/// into `after` and give `start`. Without a feed for the indicator's symbol
/// the fill fails with `UnknownSeries`; with a feed that has begun to reveal
/// it fails with `SourceLocked`; in both cases the indicator stays as it
/// was. Else the indicator is filled with the pending history of the feed.
pub open spec fn materializes<I: Indicator>(
    handler: HandlerView,
    before: &I,
    after: &I,
    start: Result<BarDate, DataError>,
) -> bool {
    match handler.feed_of(before.symbol_text()) {
        None => start == Err::<BarDate, DataError>(DataError::UnknownSeries) && *after == *before,
        Some(feed) => match feed.source() {
            None => start == Err::<BarDate, DataError>(DataError::SourceLocked) && *after
                == *before,
            Some(pending) => before.fills_to(pending, after, start),
        },
    }
}

/// The symbols and the feeds of `entries`.
pub open spec fn held(entries: Seq<(Symbol, BarFeed)>) -> HandlerView {
    HandlerView {
        symbols: entries.map_values(|entry: (Symbol, BarFeed)| entry.0@),
        feeds: entries.map_values(|entry: (Symbol, BarFeed)| entry.1@),
    }
}

/// The symbols and the histories of `loaded`.
pub open spec fn loaded_view(loaded: Seq<(Symbol, Vec<OHLCBar>)>) -> Seq<(Seq<char>, Seq<OHLCBar>)> {
    loaded.map_values(|pair: (Symbol, Vec<OHLCBar>)| (pair.0@, pair.1@))
}

/// Owns the feed of raw bars of every symbol it was built for. No symbol has
/// two feeds, and the set of symbols never changes.
pub struct DataHandler {
    entries: Vec<(Symbol, BarFeed)>,
}

impl View for DataHandler {
    type V = HandlerView;

    closed spec fn view(&self) -> HandlerView {
        held(self.entries@)
    }
}

/// The position of the entry for `symbol` in `entries`.
fn find(entries: &Vec<(Symbol, BarFeed)>, symbol: &Symbol) -> (found: Option<usize>)
    requires
        held(entries@).well_formed(),
    ensures
        match found {
            Some(at) => held(entries@).position(symbol@) == Some(at as int),
            None => held(entries@).position(symbol@) is None,
        },
{
    let ghost symbols = held(entries@).symbols;
    let mut at: usize = 0;
    while at < entries.len()
        invariant
            at <= entries@.len(),
            symbols == held(entries@).symbols,
            held(entries@).well_formed(),
            forall|i: int| 0 <= i < at ==> symbols[i] != symbol@,
        decreases entries@.len() - at,
    {
        if entries[at].0.same_as(symbol) {
            assert(symbols[at as int] == symbol@);
            return Some(at);
        }
        at = at + 1;
    }
    None
}

/// Whether `loader` may give a history for `symbol`.
pub open spec fn may_succeed<L: DataLoader>(loader: &L, symbol: &Symbol) -> bool {
    exists|bars: Vec<OHLCBar>| #[trigger] loader.may_load(symbol, Ok(bars))
}

/// Makes `bars` the untouched feed of `symbol`: in the place of the feed
/// that `symbol` had, or behind all others.
fn insert(entries: &mut Vec<(Symbol, BarFeed)>, symbol: Symbol, bars: Vec<OHLCBar>)
    requires
        held(old(entries)@).well_formed(),
    ensures
        held(final(entries)@) == held(old(entries)@).with_history(symbol@, bars@),
        held(final(entries)@).well_formed(),
{
    let feed = BarFeed::new(bars);
    match find(entries, &symbol) {
        Some(at) => {
            entries.set(at, (symbol, feed));
            proof {
                let before = held(old(entries)@);
                let after = held(entries@);
                assert(after.symbols =~= before.symbols);
                assert(after.feeds =~= before.feeds.update(at as int, FeedView::fresh(bars@)));
            }
        },
        None => {
            entries.push((symbol, feed));
            proof {
                let before = held(old(entries)@);
                let after = held(entries@);
                assert(after.symbols =~= before.symbols.push(symbol@));
                assert(after.feeds =~= before.feeds.push(FeedView::fresh(bars@)));
            }
        },
    }
}

/// Cuts every feed at `cutoff`.
fn align(entries: &mut Vec<(Symbol, BarFeed)>, cutoff: BarDate)
    requires
        forall|i: int|
            0 <= i < old(entries)@.len() ==> (#[trigger] held(old(entries)@).feeds[i]).untouched(),
    ensures
        held(final(entries)@) == held(old(entries)@).truncate(cutoff),
{
    let mut at: usize = 0;
    while at < entries.len()
        invariant
            at <= entries@.len(),
            entries@.len() == old(entries)@.len(),
            forall|i: int| 0 <= i < entries@.len() ==> (#[trigger] entries@[i]).0 == old(entries)@[i].0,
            forall|i: int| 0 <= i < at ==> (#[trigger] entries@[i]).1@ == old(entries)@[i].1@.truncate(cutoff),
            forall|i: int| at <= i < entries@.len() ==> (#[trigger] entries@[i]).1 == old(entries)@[i].1,
            forall|i: int|
                0 <= i < old(entries)@.len() ==> (#[trigger] held(old(entries)@).feeds[i]).untouched(),
        decreases entries@.len() - at,
    {
        assert(held(old(entries)@).feeds[at as int].untouched());
        let _ = entries[at].1.truncate(cutoff);
        at = at + 1;
    }
    proof {
        let before = held(old(entries)@);
        let after = held(entries@);
        assert(after.symbols =~= before.symbols);
        assert(after.feeds =~= before.truncate(cutoff).feeds);
    }
}

impl DataHandler {
    #[verifier::type_invariant]
    spec fn no_symbol_twice(&self) -> bool {
        held(self.entries@).well_formed()
    }

    /// A handler that holds the histories of `loaded`, each as the feed of
    /// its symbol. Where a symbol is named twice, its later history takes the
    /// place of the earlier one. Every feed is cut at the latest date on
    /// which one of the histories begins, so that all feeds start to reveal
    /// on the same date.
    pub fn from_histories(loaded: Vec<(Symbol, Vec<OHLCBar>)>) -> (handler: Self)
        ensures
            handler@ == HandlerView::assemble(loaded_view(loaded@)),
            handler@.well_formed(),
    {
        let ghost all = loaded_view(loaded@);
        let mut entries: Vec<(Symbol, BarFeed)> = Vec::new();
        let mut start: Option<BarDate> = None;
        proof {
            assert(all.take(0) =~= Seq::empty());
            assert(histories(all.take(0)) =~= Seq::empty());
            assert(held(entries@).symbols =~= Seq::empty());
            assert(held(entries@).feeds =~= Seq::empty());
        }
        for pair in walk: loaded
            invariant
                walk.seq() == loaded@,
                all == loaded_view(loaded@),
                held(entries@) == HandlerView::of_histories(all.take(walk.index() as int)),
                held(entries@).well_formed(),
                start == common_start(histories(all.take(walk.index() as int))),
                forall|i: int|
                    0 <= i < entries@.len() ==> (#[trigger] held(entries@).feeds[i]).untouched(),
        {
            proof {
                let seen = all.take(walk.index() as int);
                let more = all.take(walk.index() + 1);
                assert(more.drop_last() =~= seen);
                assert(more.last() == (pair.0@, pair.1@));
                assert(histories(more).drop_last() =~= histories(seen));
                assert(histories(more).last() == pair.1@);
            }
            let (symbol, bars) = pair;
            if bars.len() > 0 {
                let first = bars[0].bardate;
                start = match start {
                    Some(found) => if !first.is_before(&found) {
                        Some(first)
                    } else {
                        Some(found)
                    },
                    None => Some(first),
                };
            }
            insert(&mut entries, symbol, bars);
        }
        proof {
            assert(all.take(all.len() as int) =~= all);
        }
        if let Some(cutoff) = start {
            align(&mut entries, cutoff);
        }
        DataHandler { entries }
    }

    /// A handler for `symbols`, with the history that `loader` gives for
    /// each. The histories are asked for in the order of `symbols`; the
    /// first failure of the loader ends the work and is returned as it is.
    pub fn new<L: DataLoader>(symbols: &[Symbol], loader: &L) -> (made: Result<Self, L::Error>)
        ensures
            match made {
                Ok(handler) => exists|loaded: Seq<(Symbol, Vec<OHLCBar>)>|
                    {
                        &&& loaded.len() == symbols@.len()
                        &&& forall|i: int|
                            0 <= i < loaded.len() ==> (#[trigger] loaded[i]).0@ == symbols@[i]@
                                && loader.may_load(&symbols@[i], Ok(loaded[i].1))
                        &&& handler@ == HandlerView::assemble(loaded_view(loaded))
                        &&& handler@.well_formed()
                    },
                Err(error) => exists|i: int|
                    {
                        &&& 0 <= i < symbols@.len()
                        &&& #[trigger] loader.may_load(&symbols@[i], Err(error))
                        &&& forall|j: int| 0 <= j < i ==> #[trigger] may_succeed(loader, &symbols@[j])
                    },
            },
    {
        let mut loaded: Vec<(Symbol, Vec<OHLCBar>)> = Vec::new();
        let mut at: usize = 0;
        while at < symbols.len()
            invariant
                at <= symbols@.len(),
                loaded@.len() == at,
                forall|i: int|
                    0 <= i < at ==> (#[trigger] loaded@[i]).0@ == symbols@[i]@ && loader.may_load(
                        &symbols@[i],
                        Ok(loaded@[i].1),
                    ),
            decreases symbols@.len() - at,
        {
            match loader.load_symbol(&symbols[at]) {
                Ok(bars) => {
                    loaded.push((symbols[at].clone(), bars));
                },
                Err(error) => {
                    assert(loader.may_load(&symbols@[at as int], Err(error)));
                    let failed: Result<Self, L::Error> = Err(error);
                    proof {
                        assert(failed matches Err(e) && loader.may_load(
                            &symbols@[at as int],
                            Err(e),
                        ));
                        assert forall|j: int| 0 <= j < at implies #[trigger] may_succeed(
                            loader,
                            &symbols@[j],
                        ) by {
                            assert(loader.may_load(&symbols@[j], Ok(loaded@[j].1)));
                        }
                    }
                    return failed;
                },
            }
            at = at + 1;
        }
        Ok(Self::from_histories(loaded))
    }

    /// The most recently revealed bar of `symbol`. `None` if the handler has
    /// no feed for `symbol` or the feed has revealed nothing.
    pub fn ohlc(&self, symbol: &Symbol) -> (last: Option<&OHLCBar>)
        ensures
            self@.well_formed(),
            match self@.feed_of(symbol@) {
                Some(feed) => match last {
                    Some(bar) => feed.latest() == Some(*bar),
                    None => feed.latest() is None,
                },
                None => last is None,
            },
    {
        proof {
            use_type_invariant(self);
        }
        match find(&self.entries, symbol) {
            Some(at) => self.entries[at].1.latest(),
            None => None,
        }
    }

    /// Up to `n` revealed bars of `symbol`, the most recent first. `None` if
    /// the handler has no feed for `symbol`.
    pub fn ohlc_n(&self, symbol: &Symbol, n: usize) -> (recent: Option<Vec<&OHLCBar>>)
        ensures
            self@.well_formed(),
            match self@.feed_of(symbol@) {
                Some(feed) => recent matches Some(bars) && refers_to(bars@, feed.latest_n(n as nat)),
                None => recent is None,
            },
    {
        proof {
            use_type_invariant(self);
        }
        match find(&self.entries, symbol) {
            Some(at) => Some(self.entries[at].1.latest_n(n)),
            None => None,
        }
    }

    /// Advances every feed by one bar, in the order of the symbols, up to the
    /// first feed that has nothing left. Returns `true` if every feed
    /// advanced. The feeds that advanced before an exhausted one stay
    /// advanced: nothing is rolled back.
    pub fn update(&mut self) -> (advanced: bool)
        ensures
            old(self)@.well_formed(),
            final(self)@.well_formed(),
            advanced == old(self)@.can_advance(),
            final(self)@ == old(self)@.advance(),
    {
        proof {
            use_type_invariant(&*self);
        }
        let mut entries: Vec<(Symbol, BarFeed)> = Vec::new();
        std::mem::swap(&mut self.entries, &mut entries);
        let ghost before = held(entries@);
        let mut at: usize = 0;
        let mut advanced = true;
        while advanced && at < entries.len()
            invariant
                at <= entries@.len(),
                before.well_formed(),
                held(entries@).symbols == before.symbols,
                entries@.len() == before.feeds.len(),
                forall|i: int| 0 <= i < at ==> (#[trigger] before.feeds[i]).can_advance(),
                forall|i: int|
                    0 <= i < at ==> (#[trigger] held(entries@).feeds[i]) == before.feeds[i].advance(),
                forall|i: int|
                    at <= i < entries@.len() ==> (#[trigger] held(entries@).feeds[i])
                        == before.feeds[i],
                !advanced ==> at < entries@.len() && !before.feeds[at as int].can_advance(),
            decreases entries@.len() - at + if advanced { 1int } else { 0int },
        {
            let ghost earlier = held(entries@);
            assert(earlier.feeds[at as int] == before.feeds[at as int]);
            if entries[at].1.update() {
                proof {
                    let now = held(entries@);
                    assert(now.symbols =~= earlier.symbols);
                    assert forall|i: int| 0 <= i < at + 1 implies (#[trigger] now.feeds[i])
                        == before.feeds[i].advance() by {
                        if i < at {
                            assert(now.feeds[i] == earlier.feeds[i]);
                        }
                    }
                    assert forall|i: int| at + 1 <= i < entries@.len() implies (
                    #[trigger] now.feeds[i]) == before.feeds[i] by {
                        assert(now.feeds[i] == earlier.feeds[i]);
                    }
                }
                at = at + 1;
            } else {
                proof {
                    let now = held(entries@);
                    assert(now.symbols =~= earlier.symbols);
                    assert(now.feeds =~= earlier.feeds);
                }
                advanced = false;
            }
        }
        self.entries = entries;
        proof {
            before.lemma_stops_once(at as int);
            assert(self@.feeds =~= before.advance().feeds);
        }
        advanced
    }

    /// Fills `indicator` with the pending history of its symbol. Fails with
    /// `UnknownSeries` if the handler has no feed for the symbol and with
    /// `SourceLocked` if that feed has begun to reveal; the indicator is
    /// then left as it was.
    pub fn fill_indicator<I: Indicator>(&self, indicator: &mut I) -> (start: Result<BarDate, DataError>)
        ensures
            self@.well_formed(),
            materializes(self@, old(indicator), final(indicator), start),
    {
        proof {
            use_type_invariant(self);
        }
        match find(&self.entries, indicator.symbol()) {
            Some(at) => match self.entries[at].1.pending_bars() {
                Some(bars) => indicator.fill(bars),
                None => Err(DataError::SourceLocked),
            },
            None => Err(DataError::UnknownSeries),
        }
    }
}

} // verus!
