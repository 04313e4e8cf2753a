//! Feeds: what is still pending, what has been revealed, and the capabilities
//! that raw feeds, derived feeds and indicators share.
use vstd::prelude::*;

use super::asset::{BarDate, GetBarDate};
use super::DataError;

pub mod bar_feed;
pub mod data_feed;
pub mod indicator_feed;

verus! {

/// The most recent element of `revealed`, if there is one.
pub open spec fn latest_of<T>(revealed: Seq<T>) -> Option<T> {
    if revealed.len() > 0 {
        Some(revealed.last())
    } else {
        None
    }
}

/// The `n` most recent elements of `revealed`, or all of them if there are
/// fewer, the most recent first.
pub open spec fn latest_n_of<T>(revealed: Seq<T>, n: nat) -> Seq<T> {
    Seq::new(
        if n <= revealed.len() { n } else { revealed.len() },
        |i: int| revealed[revealed.len() - 1 - i],
    )
}

/// The elements of `pending` that are not dated before `cutoff`, in order.
pub open spec fn from_date<T: GetBarDate>(pending: Seq<T>, cutoff: BarDate) -> Seq<T> {
    pending.filter(|item: T| cutoff@ <= item.date()@)
}

/// Whether the references in `out` point to the values of `wanted`, one for one.
pub open spec fn refers_to<T>(out: Seq<&T>, wanted: Seq<T>) -> bool {
    &&& out.len() == wanted.len()
    &&& forall|i: int| 0 <= i < out.len() ==> *(#[trigger] out[i]) == wanted[i]
}

/// The contents of a feed: the history that is still to come and the history
/// that has been revealed, both oldest first.
pub struct FeedView<T> {
    pub pending: Seq<T>,
    pub revealed: Seq<T>,
}

impl<T> FeedView<T> {
    /// A feed that holds `source` and has revealed nothing.
    pub open spec fn fresh(source: Seq<T>) -> Self {
        FeedView { pending: source, revealed: Seq::empty() }
    }

    /// Nothing has been revealed yet.
    pub open spec fn untouched(self) -> bool {
        self.revealed.len() == 0
    }

    /// Something is left to reveal.
    pub open spec fn can_advance(self) -> bool {
        self.pending.len() > 0
    }

    /// The feed after one call to advance it: the first pending element has
    /// become the last revealed one, or nothing has changed if none was left.
    pub open spec fn advance(self) -> Self {
        if self.can_advance() {
            FeedView {
                pending: self.pending.drop_first(),
                revealed: self.revealed.push(self.pending.first()),
            }
        } else {
            self
        }
    }

    /// The feed after `calls` calls to advance it.
    pub open spec fn advance_by(self, calls: nat) -> Self
        decreases calls,
    {
        if calls == 0 {
            self
        } else {
            self.advance_by((calls - 1) as nat).advance()
        }
    }

    /// The most recently revealed element.
    pub open spec fn latest(self) -> Option<T> {
        latest_of(self.revealed)
    }

    /// Up to `n` revealed elements, the most recent first.
    pub open spec fn latest_n(self, n: nat) -> Seq<T> {
        latest_n_of(self.revealed, n)
    }

    /// The pending history, readable only while nothing has been revealed.
    pub open spec fn source(self) -> Option<Seq<T>> {
        if self.untouched() {
            Some(self.pending)
        } else {
            None
        }
    }
}

impl<T> FeedView<T> {
    /// A feed that began with `source` has, after `calls` calls to advance
    /// it, revealed the first `calls` elements of `source` in their order,
    /// or all of them if there are fewer, and holds the rest as pending.
    pub proof fn lemma_advance_by(source: Seq<T>, calls: nat)
        ensures
            ({
                let shown = if calls <= source.len() { calls } else { source.len() };
                let feed = Self::fresh(source).advance_by(calls);
                &&& feed.revealed == source.take(shown as int)
                &&& feed.pending == source.skip(shown as int)
            }),
        decreases calls,
    {
        let feed = Self::fresh(source).advance_by(calls);
        if calls == 0 {
            assert(feed.revealed =~= source.take(0));
            assert(feed.pending =~= source.skip(0));
        } else {
            Self::lemma_advance_by(source, (calls - 1) as nat);
            let before = Self::fresh(source).advance_by((calls - 1) as nat);
            if calls <= source.len() {
                assert(feed.revealed =~= source.take(calls as int));
                assert(feed.pending =~= source.skip(calls as int));
            } else {
                assert(feed == before);
            }
        }
    }

    /// Advancing moves elements from the pending history to the revealed
    /// one, first in, first out, and loses none: the revealed history
    /// followed by the pending one stays what it was, and the revealed
    /// history only grows at its end.
    pub proof fn law_advance_keeps_history(self, calls: nat)
        ensures
            self.advance_by(calls).revealed + self.advance_by(calls).pending == self.revealed
                + self.pending,
            self.revealed.is_prefix_of(self.advance_by(calls).revealed),
        decreases calls,
    {
        if calls > 0 {
            self.law_advance_keeps_history((calls - 1) as nat);
            let before = self.advance_by((calls - 1) as nat);
            let after = self.advance_by(calls);
            assert(after.revealed + after.pending =~= before.revealed + before.pending);
        } else {
            assert(self.revealed.is_prefix_of(self.revealed));
        }
    }

    /// Replay reveals the history in its order and stops at its end. After
    /// `calls` calls to advance a feed that began with `source`, `latest_n(n)`
    /// is the last `n` of the elements revealed so far, the most recent
    /// first, or all of them if there are fewer; the next call to advance
    /// succeeds if and only if fewer calls were made than `source` has
    /// elements; and once all are revealed, `latest` stays the last element
    /// of `source`.
    pub proof fn law_replay(source: Seq<T>, calls: nat, n: nat)
        ensures
            ({
                let shown = if calls <= source.len() { calls } else { source.len() };
                let count = if n <= shown { n } else { shown };
                let feed = Self::fresh(source).advance_by(calls);
                &&& feed.latest_n(n).len() == count
                &&& forall|i: int| 0 <= i < count ==> feed.latest_n(n)[i] == source[shown - 1 - i]
                &&& feed.can_advance() == (calls < source.len())
                &&& calls >= source.len() ==> feed.advance() == feed
                &&& calls >= source.len() > 0 ==> feed.latest() == Some(source.last())
                &&& calls == 0 ==> feed.latest() is None
            }),
    {
        Self::lemma_advance_by(source, calls);
    }

    /// The pending history can be read until the first element is revealed,
    /// and never again. A feed that began with `source` shows all of
    /// `source` as long as no call to advance it has succeeded, and nothing
    /// after the first that did.
    pub proof fn law_source_locks(source: Seq<T>, calls: nat)
        ensures
            Self::fresh(source).advance_by(calls).source() == if calls == 0 || source.len() == 0 {
                Some(source)
            } else {
                None::<Seq<T>>
            },
    {
        Self::lemma_advance_by(source, calls);
        let feed = Self::fresh(source).advance_by(calls);
        if calls == 0 || source.len() == 0 {
            assert(feed.pending =~= source);
        }
    }

    /// A feed that has revealed an element stays locked, however often it
    /// is advanced.
    pub proof fn law_stays_locked(self, calls: nat)
        requires
            !self.untouched(),
        ensures
            !self.advance_by(calls).untouched(),
            self.advance_by(calls).source() is None,
        decreases calls,
    {
        if calls > 0 {
            self.law_stays_locked((calls - 1) as nat);
        }
    }
}

impl<T: GetBarDate> FeedView<T> {
    /// The feed with every pending element dated before `cutoff` removed.
    pub open spec fn truncate(self, cutoff: BarDate) -> Self {
        FeedView { pending: from_date(self.pending, cutoff), revealed: self.revealed }
    }

    /// Cutting a feed at `cutoff` removes the pending elements dated before
    /// `cutoff` and no others: an element is pending afterwards if and only
    /// if it was pending and is not dated before `cutoff`, and none is
    /// dated before `cutoff`. What was revealed is as it was, and a cut
    /// never unlocks a feed.
    pub proof fn law_truncate(self, cutoff: BarDate)
        ensures
            forall|item: T|
                #[trigger] self.truncate(cutoff).pending.contains(item) <==> self.pending.contains(
                    item,
                ) && cutoff@ <= item.date()@,
            forall|i: int|
                0 <= i < self.truncate(cutoff).pending.len() ==> cutoff@ <= (
                #[trigger] self.truncate(cutoff).pending[i]).date()@,
            self.truncate(cutoff).pending.len() <= self.pending.len(),
            self.truncate(cutoff).revealed == self.revealed,
            self.truncate(cutoff).untouched() == self.untouched(),
    {
        let keep = |item: T| cutoff@ <= item.date()@;
        let kept = self.pending.filter(keep);
        self.pending.lemma_filter_len(keep);
        assert forall|item: T| #[trigger] kept.contains(item) <==> self.pending.contains(item)
            && cutoff@ <= item.date()@ by {
            if kept.contains(item) {
                let i = choose|i: int| 0 <= i < kept.len() && kept[i] == item;
                self.pending.lemma_filter_pred(keep, i);
                self.pending.lemma_filter_contains_rev(keep, item);
            }
            if self.pending.contains(item) && cutoff@ <= item.date()@ {
                let i = choose|i: int| 0 <= i < self.pending.len() && self.pending[i] == item;
                self.pending.lemma_filter_contains(keep, i);
            }
        }
        assert forall|i: int| 0 <= i < kept.len() implies cutoff@ <= (#[trigger] kept[i]).date()@ by {
            self.pending.lemma_filter_pred(keep, i);
        }
    }
}

/// A feed that can reveal its next element.
pub trait UpdateFeed: Sized {
    /// Whether an element is left to reveal.
    spec fn can_update(&self) -> bool;

    /// Whether `next` is this feed after its next element has been revealed.
    spec fn updates_to(&self, next: &Self) -> bool;

    /// Reveals the next pending element. Returns `false`, and changes
    /// nothing, if none is left.
    fn update(&mut self) -> (advanced: bool)
        ensures
            advanced == old(self).can_update(),
            advanced ==> old(self).updates_to(final(self)),
            !advanced ==> *final(self) == *old(self),
    ;
}

/// A feed whose revealed elements can be read.
pub trait LatestFeed<T> {
    /// The revealed elements, oldest first.
    spec fn revealed(&self) -> Seq<T>;

    /// Up to `n` revealed elements, the most recent first.
    fn latest_n(&self, n: usize) -> (recent: Vec<&T>)
        ensures
            refers_to(recent@, latest_n_of(self.revealed(), n as nat)),
    ;

    /// The most recently revealed element, if any has been revealed.
    fn latest(&self) -> (last: Option<&T>)
        ensures
            match last {
                Some(item) => latest_of(self.revealed()) == Some(*item),
                None => latest_of(self.revealed()) is None,
            },
    ;
}

/// A feed whose pending history can be read until replay begins.
pub trait SourceFeed<T> {
    /// The pending history, or `None` once an element has been revealed.
    spec fn pending(&self) -> Option<Seq<T>>;

    /// The whole pending history while nothing has been revealed, and `None`
    /// from the first revealed element on.
    fn source(&self) -> (pending: Option<&[T]>)
        ensures
            match pending {
                Some(items) => self.pending() == Some(items@),
                None => self.pending() is None,
            },
    ;
}

/// A feed whose pending history can be cut at a date until replay begins.
pub trait TruncateFeed: Sized {
    /// Whether the pending history may still be cut.
    spec fn can_truncate(&self) -> bool;

    /// Whether `next` is this feed with the pending elements dated before
    /// `cutoff` removed.
    spec fn truncates_to(&self, cutoff: BarDate, next: &Self) -> bool;

    /// Removes every pending element dated before `date`. Fails, and changes
    /// nothing, once an element has been revealed.
    fn truncate(&mut self, date: BarDate) -> (done: Result<(), DataError>)
        ensures
            old(self).can_truncate() ==> done is Ok && old(self).truncates_to(date, final(self)),
            !old(self).can_truncate() ==> done == Err::<(), DataError>(DataError::SourceLocked)
                && *final(self) == *old(self),
    ;
}

} // verus!
