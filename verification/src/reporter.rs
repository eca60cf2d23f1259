//! A rate limiter for progress output: it is fed the index of every
//! iteration and says when the displayed rate is due for a refresh.

use vstd::prelude::*;

verus! {

/// Decides, iteration by iteration, whether the progress display is to be
/// refreshed.
///
/// The first refresh is tied to an iteration count, the first checkpoint,
/// and to nothing else. After it the reporter looks at the clock once every
/// `checkpoint` iterations and asks for a refresh where at least `interval`
/// has passed since the last one. The clock is whatever the caller feeds
/// in; `interval` is in its unit.
#[derive(Clone, Copy, Debug)]
pub struct ProgressReporter {
    /// The least time between two refreshes.
    pub interval: u128,
    /// The number of iterations from one look at the clock to the next.
    pub checkpoint: usize,
    /// The index of the iteration at which the clock is looked at next.
    pub next_look: usize,
    /// The time of the last refresh; `None` until the first.
    pub last_signal: Option<u128>,
}

impl ProgressReporter {
    /// Whether the reporter consults the clock at iteration `index`. At
    /// every other iteration its answer is `false` whatever the time.
    pub open spec fn looks_at(self, index: usize) -> bool {
        index >= self.next_look
    }

    /// Whether iteration `index`, observed at time `now`, gets a refresh.
    pub open spec fn signals(self, index: usize, now: u128) -> bool {
        self.looks_at(index) && match self.last_signal {
            None => true,
            Some(last) => now - last >= self.interval,
        }
    }

    /// The reporter after it was fed iteration `index` at time `now`.
    pub open spec fn after(self, index: usize, now: u128) -> ProgressReporter {
        if self.looks_at(index) {
            ProgressReporter {
                interval: self.interval,
                checkpoint: self.checkpoint,
                next_look: if index + self.checkpoint > usize::MAX {
                    usize::MAX
                } else {
                    (index + self.checkpoint) as usize
                },
                last_signal: if self.signals(index, now) {
                    Some(now)
                } else {
                    self.last_signal
                },
            }
        } else {
            self
        }
    }

    /// The reporter before any iteration.
    pub open spec fn initial(interval: u128, first_checkpoint: usize) -> ProgressReporter {
        ProgressReporter {
            interval,
            checkpoint: first_checkpoint,
            next_look: if first_checkpoint == 0 {
                0
            } else {
                (first_checkpoint - 1) as usize
            },
            last_signal: None,
        }
    }

    /// A reporter that asks for its first refresh at the iteration that
    /// completes `first_checkpoint` iterations, and from then on no more
    /// often than every `interval`.
    pub fn new(interval: u128, first_checkpoint: usize) -> (reporter: ProgressReporter)
        ensures
            reporter == Self::initial(interval, first_checkpoint),
    {
        ProgressReporter {
            interval,
            checkpoint: first_checkpoint,
            next_look: if first_checkpoint == 0 {
                0
            } else {
                first_checkpoint - 1
            },
            last_signal: None,
        }
    }

    /// Whether the answer for iteration `index` depends on the time, so
    /// that a caller can spare the clock where it does not.
    pub fn needs_clock(&self, index: usize) -> (needed: bool)
        ensures
            needed == self.looks_at(index),
    {
        index >= self.next_look
    }

    /// Feeds in iteration `index`, observed at time `now`, and says whether
    /// the display is to be refreshed.
    pub fn observe(&mut self, index: usize, now: u128) -> (refresh: bool)
        ensures
            refresh == old(self).signals(index, now),
            *final(self) == old(self).after(index, now),
    {
        if index < self.next_look {
            return false;
        }
        let refresh = match self.last_signal {
            None => true,
            Some(last) => now >= last && now - last >= self.interval,
        };
        self.next_look = match index.checked_add(self.checkpoint) {
            Some(next) => next,
            None => usize::MAX,
        };
        if refresh {
            self.last_signal = Some(now);
        }
        refresh
    }
}

/// One observation fed to a reporter: the index of an iteration and the
/// time at which it was observed.
#[derive(Clone, Copy, Debug)]
pub struct Observation {
    pub index: usize,
    pub now: u128,
}

/// The reporter after it was fed every observation of `feed` in order.
pub open spec fn fed(reporter: ProgressReporter, feed: Seq<Observation>) -> ProgressReporter
    decreases feed.len(),
{
    if feed.len() == 0 {
        reporter
    } else {
        fed(reporter, feed.drop_last()).after(feed.last().index, feed.last().now)
    }
}

/// Whether observation number `at` of `feed` gets a refresh from a
/// reporter that was fed all those before it.
pub open spec fn refreshed_at(reporter: ProgressReporter, feed: Seq<Observation>, at: int) -> bool {
    fed(reporter, feed.take(at)).signals(feed[at].index, feed[at].now)
}

/// After a refresh at observation `from`, and as long as none follows, the
/// reporter remembers the time of that refresh and keeps its interval.
proof fn lemma_last_refresh_is_remembered(
    reporter: ProgressReporter,
    feed: Seq<Observation>,
    from: int,
    upto: int,
)
    requires
        0 <= from < upto <= feed.len(),
        refreshed_at(reporter, feed, from),
        forall|between: int| from < between < upto ==> !refreshed_at(reporter, feed, between),
    ensures
        fed(reporter, feed.take(upto)).last_signal == Some(feed[from].now),
    decreases upto - from,
{
    assert(feed.take(upto).drop_last() =~= feed.take(upto - 1));
    assert(feed.take(upto).last() == feed[upto - 1]);
    if upto - 1 > from {
        lemma_last_refresh_is_remembered(reporter, feed, from, upto - 1);
        assert(!refreshed_at(reporter, feed, upto - 1));
    }
}

/// Feeding a reporter never changes its interval.
proof fn lemma_interval_is_kept(reporter: ProgressReporter, feed: Seq<Observation>)
    ensures
        fed(reporter, feed).interval == reporter.interval,
    decreases feed.len(),
{
    if feed.len() > 0 {
        lemma_interval_is_kept(reporter, feed.drop_last());
    }
}

/// Two refreshes with none between them are at least the interval apart
/// by the clock that was fed in, whatever the reporter and the feed.
pub proof fn lemma_refreshes_are_spaced(
    reporter: ProgressReporter,
    feed: Seq<Observation>,
    earlier: int,
    later: int,
)
    requires
        0 <= earlier < later < feed.len(),
        refreshed_at(reporter, feed, earlier),
        refreshed_at(reporter, feed, later),
        forall|between: int| earlier < between < later ==> !refreshed_at(reporter, feed, between),
    ensures
        feed[later].now - feed[earlier].now >= reporter.interval,
{
    lemma_last_refresh_is_remembered(reporter, feed, earlier, later);
    lemma_interval_is_kept(reporter, feed.take(later));
}

/// A fresh reporter that is fed the iterations in order is unchanged as
/// long as the first checkpoint was not reached.
proof fn lemma_unchanged_before_checkpoint(
    interval: u128,
    first_checkpoint: usize,
    feed: Seq<Observation>,
    upto: int,
)
    requires
        first_checkpoint >= 1,
        0 <= upto <= feed.len(),
        upto < first_checkpoint,
        forall|k: int| 0 <= k < feed.len() ==> (#[trigger] feed[k]).index == k,
    ensures
        fed(ProgressReporter::initial(interval, first_checkpoint), feed.take(upto))
            == ProgressReporter::initial(interval, first_checkpoint),
    decreases upto,
{
    if upto > 0 {
        assert(feed.take(upto).drop_last() =~= feed.take(upto - 1));
        assert(feed.take(upto).last() == feed[upto - 1]);
        lemma_unchanged_before_checkpoint(interval, first_checkpoint, feed, upto - 1);
    }
}

/// A fresh reporter that is fed the iterations in order, from index 0,
/// stays silent before its first checkpoint and asks for a refresh at the
/// iteration that completes it, whatever the clock says.
pub proof fn lemma_first_refresh_at_checkpoint(
    interval: u128,
    first_checkpoint: usize,
    feed: Seq<Observation>,
    at: int,
)
    requires
        first_checkpoint >= 1,
        0 <= at < feed.len(),
        at < first_checkpoint,
        forall|k: int| 0 <= k < feed.len() ==> (#[trigger] feed[k]).index == k,
    ensures
        refreshed_at(ProgressReporter::initial(interval, first_checkpoint), feed, at) <==> at
            == first_checkpoint - 1,
{
    lemma_unchanged_before_checkpoint(interval, first_checkpoint, feed, at);
}

} // verus!
