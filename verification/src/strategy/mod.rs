//! Default behaviour of a replay consumer that owns indicators: filling them
//! from a handler, advancing them together and cutting them at one date.
use vstd::prelude::*;

use crate::data::asset::BarDate;
use crate::data::data_handler::{later, materializes, DataHandler, HandlerView};
use crate::data::feed::{TruncateFeed, UpdateFeed};
use crate::data::indicator::Indicator;
use crate::data::DataError;

verus! {

/// Whether the indicators before position `at` can all advance and the one
/// at `at`, if there is one, cannot.
pub open spec fn update_stops_at<I: Indicator>(indicators: Seq<I>, at: int) -> bool {
    &&& 0 <= at <= indicators.len()
    &&& forall|i: int| 0 <= i < at ==> (#[trigger] indicators[i]).can_update()
    &&& at < indicators.len() ==> !indicators[at].can_update()
}

/// Whether `after` is `before` with the indicators in front of position `at`
/// advanced by one step and the others as they were.
pub open spec fn updated_up_to<I: Indicator>(before: Seq<I>, after: Seq<I>, at: int) -> bool {
    &&& after.len() == before.len()
    &&& forall|i: int| 0 <= i < at && i < before.len() ==> (#[trigger] before[i]).updates_to(&after[i])
    &&& forall|i: int| at <= i < before.len() ==> (#[trigger] after[i]) == before[i]
}

/// Whether the indicators before position `at` can all be cut and the one at
/// `at`, if there is one, cannot.
pub open spec fn truncate_stops_at<I: Indicator>(indicators: Seq<I>, at: int) -> bool {
    &&& 0 <= at <= indicators.len()
    &&& forall|i: int| 0 <= i < at ==> (#[trigger] indicators[i]).can_truncate()
    &&& at < indicators.len() ==> !indicators[at].can_truncate()
}

/// Whether `after` is `before` with the indicators in front of position `at`
/// cut at `cutoff` and the others as they were.
pub open spec fn truncated_up_to<I: Indicator>(
    before: Seq<I>,
    after: Seq<I>,
    cutoff: BarDate,
    at: int,
) -> bool {
    &&& after.len() == before.len()
    &&& forall|i: int|
        0 <= i < at && i < before.len() ==> (#[trigger] before[i]).truncates_to(cutoff, &after[i])
    &&& forall|i: int| at <= i < before.len() ==> (#[trigger] after[i]) == before[i]
}

/// What filling several indicators comes to, given what each fill returned:
/// `NoIndicators` if there was none, the first failure if there was one, and
/// else the latest of the first dates.
pub open spec fn fill_summary(starts: Seq<Result<BarDate, DataError>>) -> Result<BarDate, DataError>
    decreases starts.len(),
{
    if starts.len() == 0 {
        Err(DataError::NoIndicators)
    } else if starts.len() == 1 {
        starts.last()
    } else {
        match fill_summary(starts.drop_last()) {
            Err(error) => Err(error),
            Ok(latest) => match starts.last() {
                Err(error) => Err(error),
                Ok(start) => Ok(later(Some(latest), start)),
            },
        }
    }
}

/// Whether filling the indicators `before` from a handler that holds
/// `handler`, each in its turn and whatever the earlier fills gave, may turn
/// them into `after` and come to `start`.
pub open spec fn fills_all<I: Indicator>(
    handler: HandlerView,
    before: Seq<I>,
    after: Seq<I>,
    start: Result<BarDate, DataError>,
) -> bool {
    &&& after.len() == before.len()
    &&& exists|starts: Seq<Result<BarDate, DataError>>|
        {
            &&& starts.len() == before.len()
            &&& forall|i: int|
                0 <= i < starts.len() ==> materializes(
                    handler,
                    &before[i],
                    &after[i],
                    #[trigger] starts[i],
                )
            &&& start == fill_summary(starts)
        }
}

/// Whether advancing the indicators `before` by one step, in order and up
/// to the first that has nothing left, may turn them into `after` and give
/// `advanced`: `true` if and only if every indicator could advance.
pub open spec fn updates_all<I: Indicator>(before: Seq<I>, after: Seq<I>, advanced: bool) -> bool {
    &&& advanced == (forall|i: int| 0 <= i < before.len() ==> (#[trigger] before[i]).can_update())
    &&& exists|at: int|
        {
            &&& #[trigger] update_stops_at(before, at)
            &&& updated_up_to(before, after, at)
            &&& advanced == (at == before.len())
        }
}

/// Whether cutting the indicators `before` at `cutoff`, in order and up to
/// the first that can no longer be cut, may turn them into `after` and give
/// `done`: `SourceLocked` unless every indicator could be cut.
pub open spec fn truncates_all<I: Indicator>(
    before: Seq<I>,
    after: Seq<I>,
    cutoff: BarDate,
    done: Result<(), DataError>,
) -> bool {
    &&& done is Ok == (forall|i: int| 0 <= i < before.len() ==> (#[trigger] before[i]).can_truncate())
    &&& exists|at: int|
        {
            &&& #[trigger] truncate_stops_at(before, at)
            &&& truncated_up_to(before, after, cutoff, at)
            &&& done == if at == before.len() {
                Ok::<(), DataError>(())
            } else {
                Err::<(), DataError>(DataError::SourceLocked)
            }
        }
}

/// What filling several indicators comes to is the latest of the first
/// dates if every fill gave one, and else the failure of the first fill that
/// failed.
pub proof fn law_fill_summary(starts: Seq<Result<BarDate, DataError>>)
    ensures
        match fill_summary(starts) {
            Ok(latest) => {
                &&& forall|i: int|
                    0 <= i < starts.len() ==> ((#[trigger] starts[i]) matches Ok(start) && start@
                        <= latest@)
                &&& exists|i: int| 0 <= i < starts.len() && #[trigger] starts[i] == Ok::<BarDate, DataError>(latest)
            },
            Err(error) => if starts.len() == 0 {
                error == DataError::NoIndicators
            } else {
                exists|at: int|
                    {
                        &&& 0 <= at < starts.len()
                        &&& #[trigger] starts[at] == Err::<BarDate, DataError>(error)
                        &&& forall|i: int| 0 <= i < at ==> (#[trigger] starts[i]) is Ok
                    }
            },
        },
    decreases starts.len(),
{
    if starts.len() == 1 {
        assert(starts[0] == starts.last());
    } else if starts.len() > 1 {
        let earlier = starts.drop_last();
        law_fill_summary(earlier);
        let last = starts.len() - 1;
        assert forall|i: int| 0 <= i < earlier.len() implies #[trigger] earlier[i] == starts[i] by {}
        match fill_summary(earlier) {
            Err(error) => {
                let at = choose|at: int|
                    {
                        &&& 0 <= at < earlier.len()
                        &&& #[trigger] earlier[at] == Err::<BarDate, DataError>(error)
                        &&& forall|i: int| 0 <= i < at ==> (#[trigger] earlier[i]) is Ok
                    };
                assert(starts[at] == Err::<BarDate, DataError>(error));
                assert forall|i: int| 0 <= i < at implies (#[trigger] starts[i]) is Ok by {
                    assert(earlier[i] is Ok);
                }
            },
            Ok(latest) => {
                assert forall|i: int| 0 <= i < last implies (#[trigger] starts[i]) is Ok by {
                    assert(earlier[i] is Ok);
                }
                match starts.last() {
                    Err(error) => {
                        assert(starts[last] == Err::<BarDate, DataError>(error));
                    },
                    Ok(start) => {
                        let both = later(Some(latest), start);
                        if start@ >= latest@ {
                            assert(starts[last] == Ok::<BarDate, DataError>(both));
                        } else {
                            let i = choose|i: int|
                                0 <= i < earlier.len() && #[trigger] earlier[i] == Ok::<
                                    BarDate,
                                    DataError,
                                >(latest);
                            assert(starts[i] == Ok::<BarDate, DataError>(both));
                        }
                        assert forall|i: int| 0 <= i < starts.len() implies ((
                        #[trigger] starts[i]) matches Ok(found) && found@ <= both@) by {
                            if i < last {
                                assert(earlier[i] matches Ok(found) && found@ <= latest@);
                            }
                        }
                    },
                }
            },
        }
    }
}

/// Fills every indicator from `handler`, in order, whatever the earlier
/// fills gave. Returns the latest of the first dates, from which every
/// indicator has a value; the first failure, if a fill failed; and
/// `NoIndicators` if there is no indicator.
pub fn fill_all<I: Indicator>(indicators: &mut [I], handler: &DataHandler) -> (start: Result<
    BarDate,
    DataError,
>)
    ensures
        fills_all(handler@, old(indicators)@, final(indicators)@, start),
{
    let ghost mut starts: Seq<Result<BarDate, DataError>> = Seq::empty();
    let mut summary: Result<BarDate, DataError> = Err(DataError::NoIndicators);
    let mut at: usize = 0;
    while at < indicators.len()
        invariant
            at <= indicators@.len(),
            indicators@.len() == old(indicators)@.len(),
            starts.len() == at,
            forall|i: int|
                0 <= i < at ==> materializes(
                    handler@,
                    &old(indicators)@[i],
                    &indicators@[i],
                    #[trigger] starts[i],
                ),
            forall|i: int| at <= i < indicators@.len() ==> (#[trigger] indicators@[i]) == old(
                indicators,
            )@[i],
            summary == fill_summary(starts),
        decreases indicators@.len() - at,
    {
        let made = handler.fill_indicator(&mut indicators[at]);
        proof {
            assert(starts.push(made).drop_last() =~= starts);
        }
        summary = if at == 0 {
            made
        } else {
            match summary {
                Err(error) => Err(error),
                Ok(latest) => match made {
                    Err(error) => Err(error),
                    Ok(found) => if !found.is_before(&latest) {
                        Ok(found)
                    } else {
                        Ok(latest)
                    },
                },
            }
        };
        proof {
            starts = starts.push(made);
        }
        at = at + 1;
    }
    summary
}

/// Advances the indicators by one step, in order, up to the first that has
/// nothing left. Returns `true` if every indicator advanced. Those that
/// advanced before an exhausted one stay advanced.
pub fn update_all<I: Indicator>(indicators: &mut [I]) -> (advanced: bool)
    ensures
        updates_all(old(indicators)@, final(indicators)@, advanced),
{
    let mut at: usize = 0;
    let mut advanced = true;
    while advanced && at < indicators.len()
        invariant
            at <= indicators@.len(),
            indicators@.len() == old(indicators)@.len(),
            forall|i: int| 0 <= i < at ==> (#[trigger] old(indicators)@[i]).can_update(),
            forall|i: int|
                0 <= i < at ==> (#[trigger] old(indicators)@[i]).updates_to(&indicators@[i]),
            forall|i: int| at <= i < indicators@.len() ==> (#[trigger] indicators@[i]) == old(
                indicators,
            )@[i],
            !advanced ==> at < indicators@.len() && !old(indicators)@[at as int].can_update(),
        decreases indicators@.len() - at + if advanced { 1int } else { 0int },
    {
        if indicators[at].update() {
            at = at + 1;
        } else {
            advanced = false;
        }
    }
    proof {
        assert(update_stops_at(old(indicators)@, at as int));
    }
    advanced
}

/// Cuts the indicators at `date`, in order, up to the first that can no
/// longer be cut, and returns its failure.
pub fn truncate_all<I: Indicator>(indicators: &mut [I], date: BarDate) -> (done: Result<(), DataError>)
    ensures
        truncates_all(old(indicators)@, final(indicators)@, date, done),
{
    let mut at: usize = 0;
    let mut done: Result<(), DataError> = Ok(());
    while done.is_ok() && at < indicators.len()
        invariant
            at <= indicators@.len(),
            indicators@.len() == old(indicators)@.len(),
            forall|i: int| 0 <= i < at ==> (#[trigger] old(indicators)@[i]).can_truncate(),
            forall|i: int|
                0 <= i < at ==> (#[trigger] old(indicators)@[i]).truncates_to(date, &indicators@[i]),
            forall|i: int| at <= i < indicators@.len() ==> (#[trigger] indicators@[i]) == old(
                indicators,
            )@[i],
            done == Ok::<(), DataError>(()) || done == Err::<(), DataError>(
                DataError::SourceLocked,
            ),
            done is Err ==> at < indicators@.len() && !old(indicators)@[at as int].can_truncate(),
        decreases indicators@.len() - at + if done is Ok { 1int } else { 0int },
    {
        match indicators[at].truncate(date) {
            Ok(()) => {
                at = at + 1;
            },
            Err(error) => {
                done = Err(error);
            },
        }
    }
    proof {
        assert(truncate_stops_at(old(indicators)@, at as int));
    }
    done
}

/// A replay consumer that owns indicators of one kind.
pub trait Strategy {
    /// The kind of indicator that the strategy owns.
    type Series: Indicator;

    /// The indicators that the strategy owns. A verified strategy says here
    /// what `indicators_mut` hands out.
    open spec fn indicators(&self) -> Seq<Self::Series> {
        Seq::empty()
    }

    /// The indicators that the strategy owns, in the order in which they are
    /// filled, advanced and cut.
    fn indicators_mut(&mut self) -> (held: &mut [Self::Series])
        ensures
            held@ == old(self).indicators(),
            final(self).indicators() == final(held)@,
    ;

    /// Fills every owned indicator from `handler`. Returns the latest of
    /// their first dates, the date from which all of them have values.
    fn fill_indicators(&mut self, handler: &DataHandler) -> (start: Result<BarDate, DataError>)
        ensures
            fills_all(handler@, old(self).indicators(), final(self).indicators(), start),
    {
        fill_all(self.indicators_mut(), handler)
    }

    /// Advances every owned indicator by one step, up to the first that has
    /// nothing left. Returns `true` if all of them advanced.
    fn update_indicators(&mut self) -> (advanced: bool)
        ensures
            updates_all(old(self).indicators(), final(self).indicators(), advanced),
    {
        update_all(self.indicators_mut())
    }

    /// Cuts every owned indicator at `date`, up to the first that can no
    /// longer be cut, and returns its failure.
    fn truncate_indicators(&mut self, date: BarDate) -> (done: Result<(), DataError>)
        ensures
            truncates_all(old(self).indicators(), final(self).indicators(), date, done),
    {
        truncate_all(self.indicators_mut(), date)
    }
}

} // verus!
