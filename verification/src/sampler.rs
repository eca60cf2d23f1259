//! The timed random walk for one stride size. The sampler runs the loop
//! and hands control back whenever the progress display is due, so that
//! whoever drives it can print without the sampler doing any output.

use crate::clock::clock_now;
use crate::clock::elapsed_since;
use crate::clock::whole_nanos;
use crate::random::next_draw;
use crate::reporter::fed;
use crate::reporter::refreshed_at;
use crate::reporter::Observation;
use crate::reporter::ProgressReporter;
use crate::walk::walk_after;
use crate::walk::Draw;
use crate::walk::Walk;
use rand::rngs::StdRng;
use std::time::Instant;
use vstd::prelude::*;

verus! {

/// The time between two refreshes of the progress display, in
/// nanoseconds: 100 ms.
pub const REFRESH_INTERVAL_NANOS: u128 = 100_000_000;

/// The iteration count at which the progress display is first refreshed.
pub const FIRST_CHECKPOINT: usize = 1000;

/// One finished measurement at a given stride size.
#[derive(Clone, Copy, Debug)]
pub struct StrideTrial {
    /// The stride size of the trial.
    pub step_size: usize,
    /// The number of iterations that were run.
    pub iterations: usize,
    /// The wall-clock time of the whole loop, in nanoseconds.
    pub elapsed_nanos: u128,
    /// The wrapping 8-bit sum of all bytes read.
    pub checksum: u8,
}

/// Why the sampler handed control back.
#[derive(Clone, Copy, Debug)]
pub enum SamplerEvent {
    /// The progress display is due. `steps` is the index of the iteration
    /// just done, `elapsed_nanos` the time since the trial began.
    Refresh { steps: usize, elapsed_nanos: u128 },
    /// Every iteration is done.
    Finished(StrideTrial),
}

/// A trial in progress.
pub struct Sampler<'a> {
    buffer: &'a Vec<u8>,
    step_size: usize,
    iterations: usize,
    walk: Walk,
    reporter: ProgressReporter,
    started: Instant,
    drawn: Ghost<Seq<Draw>>,
    observed: Ghost<Seq<Observation>>,
}

impl<'a> Sampler<'a> {
    /// The bytes that the trial walks over.
    pub closed spec fn buffer(&self) -> Seq<u8> {
        self.buffer@
    }

    /// The stride size of the trial.
    pub closed spec fn step_size(&self) -> usize {
        self.step_size
    }

    /// The number of iterations that the trial is to run.
    pub closed spec fn iterations(&self) -> usize {
        self.iterations
    }

    /// The draws that the trial has consumed so far, in order.
    pub closed spec fn drawn(&self) -> Seq<Draw> {
        self.drawn@
    }

    /// What the reporter was offered so far: one observation for each
    /// iteration done, in order. Where the reporter looked at the clock,
    /// the observation holds the time that was read; elsewhere the time
    /// has no say and stands as 0.
    pub closed spec fn observed(&self) -> Seq<Observation> {
        self.observed@
    }

    /// The reporter with which every trial begins.
    pub open spec fn fresh_reporter() -> ProgressReporter {
        ProgressReporter::initial(REFRESH_INTERVAL_NANOS, FIRST_CHECKPOINT)
    }

    /// The present state of the walk.
    pub closed spec fn walk(&self) -> Walk {
        self.walk
    }

    /// The rate limiter of the trial's progress display.
    pub closed spec fn reporter(&self) -> ProgressReporter {
        self.reporter
    }

    /// No refresh was reported yet, and the trial is long enough to reach
    /// the iteration at which the first one is due.
    pub open spec fn awaits_first_refresh(&self) -> bool {
        &&& self.reporter().last_signal is None
        &&& self.drawn().len() <= self.reporter().next_look
        &&& self.reporter().next_look < self.iterations()
    }

    /// The sampler is consistent: its walk is the walk over the draws it
    /// has consumed, one step for each and no more than were asked for,
    /// and its reporter is the fresh one after every iteration done was
    /// offered to it.
    pub closed spec fn wf(&self) -> bool {
        &&& self.buffer@.len() >= 1 || self.iterations == 0
        &&& self.step_size >= 1
        &&& self.drawn@.len() <= self.iterations
        &&& self.walk.steps == self.drawn@.len()
        &&& self.buffer@.len() >= 1 ==> self.walk.position < self.buffer@.len()
        &&& self.walk == walk_after(self.buffer@, self.step_size, self.drawn@)
        &&& self.observed@.len() == self.drawn@.len()
        &&& forall|k: int| 0 <= k < self.observed@.len() ==> (#[trigger] self.observed@[k]).index == k
        &&& self.reporter == fed(Self::fresh_reporter(), self.observed@)
    }

    /// What a well-formed sampler guarantees of its walk.
    pub proof fn lemma_wf(&self)
        requires
            self.wf(),
        ensures
            self.buffer().len() >= 1 || self.iterations() == 0,
            self.step_size() >= 1,
            self.drawn().len() <= self.iterations(),
            self.walk() == walk_after(self.buffer(), self.step_size(), self.drawn()),
            self.walk().steps == self.drawn().len(),
            self.buffer().len() >= 1 ==> self.walk().position < self.buffer().len(),
            self.observed().len() == self.drawn().len(),
            forall|k: int| 0 <= k < self.observed().len() ==> (#[trigger] self.observed()[k]).index == k,
            self.reporter() == fed(Self::fresh_reporter(), self.observed()),
    {
    }

    /// Offering one more observation leaves the answers to those before
    /// it as they were, and the answer to the new one is that of the
    /// reporter as it stood.
    proof fn lemma_one_more_offered(
        reporter: ProgressReporter,
        offered: Seq<Observation>,
        extended: Seq<Observation>,
    )
        requires
            reporter == fed(Self::fresh_reporter(), offered),
            extended.len() == offered.len() + 1,
            extended.drop_last() =~= offered,
        ensures
            fed(Self::fresh_reporter(), extended) == reporter.after(
                extended.last().index,
                extended.last().now,
            ),
            refreshed_at(Self::fresh_reporter(), extended, offered.len() as int)
                == reporter.signals(extended.last().index, extended.last().now),
            forall|k: int|
                #![trigger refreshed_at(Self::fresh_reporter(), extended, k)]
                #![trigger refreshed_at(Self::fresh_reporter(), offered, k)]
                0 <= k < offered.len() ==> refreshed_at(Self::fresh_reporter(), extended, k)
                    == refreshed_at(Self::fresh_reporter(), offered, k),
    {
        assert(extended.take(offered.len() as int) =~= offered);
        assert forall|k: int| 0 <= k < offered.len() implies #[trigger] refreshed_at(
            Self::fresh_reporter(),
            extended,
            k,
        ) == refreshed_at(Self::fresh_reporter(), offered, k) by {
            assert(extended.take(k) =~= offered.take(k));
            assert(extended[k] == offered[k]);
        }
    }

    /// Begins a trial over `buffer` at stride `step_size`: position 0,
    /// checksum 0, nothing drawn yet, and the clock started. The buffer
    /// may be empty only where no iteration is to run.
    pub fn start(buffer: &'a Vec<u8>, step_size: usize, iterations: usize) -> (sampler: Sampler<'a>)
        requires
            buffer@.len() >= 1 || iterations == 0,
            step_size >= 1,
        ensures
            sampler.wf(),
            sampler.buffer() == buffer@,
            sampler.step_size() == step_size,
            sampler.iterations() == iterations,
            sampler.drawn() == Seq::<Draw>::empty(),
            sampler.observed() == Seq::<Observation>::empty(),
            sampler.walk() == (Walk { position: 0, checksum: 0, steps: 0 }),
            sampler.reporter() == Self::fresh_reporter(),
    {
        Sampler {
            buffer,
            step_size,
            iterations,
            walk: Walk::new(),
            reporter: ProgressReporter::new(REFRESH_INTERVAL_NANOS, FIRST_CHECKPOINT),
            started: clock_now(),
            drawn: Ghost(Seq::empty()),
            observed: Ghost(Seq::empty()),
        }
    }

    /// The number of iterations done so far.
    pub fn steps_done(&self) -> (steps: usize)
        requires
            self.wf(),
        ensures
            steps == self.drawn().len(),
    {
        self.walk.steps
    }

    /// Runs iterations, each with a fresh draw from `rng`, until the
    /// progress display is due or the last iteration is done.
    ///
    /// Every iteration is offered to the reporter, and the reporter
    /// afterwards is the fresh one after all of them. None of those of
    /// this call but the last got a refresh, and the call ends in a
    /// refresh exactly where the last one did.
    ///
    /// Whatever is drawn, the walk afterwards is the walk over everything
    /// drawn so far. A refresh is reported only after at least one more
    /// iteration, at an iteration at which the reporter looks at the clock
    /// and no sooner than its interval after the refresh before; the
    /// reporter then remembers the time handed out. The trial is
    /// reported finished only when as many draws were consumed as
    /// iterations were asked for. Before the first refresh of a trial the
    /// clock has no say: the run then ends in a refresh at the first
    /// checkpoint, if the trial gets that far.
    pub fn run(&mut self, rng: &mut StdRng) -> (event: SamplerEvent)
        requires
            old(self).wf(),
        ensures
            final(self).wf(),
            final(self).buffer() == old(self).buffer(),
            final(self).step_size() == old(self).step_size(),
            final(self).iterations() == old(self).iterations(),
            final(self).reporter().interval == old(self).reporter().interval,
            final(self).reporter().checkpoint == old(self).reporter().checkpoint,
            old(self).drawn().is_prefix_of(final(self).drawn()),
            old(self).observed().is_prefix_of(final(self).observed()),
            final(self).observed().len() == final(self).drawn().len(),
            forall|k: int|
                0 <= k < final(self).observed().len() ==> (#[trigger] final(self).observed()[k]).index
                    == k,
            final(self).reporter() == fed(Self::fresh_reporter(), final(self).observed()),
            forall|k: int|
                old(self).drawn().len() <= k < final(self).drawn().len() - 1 ==> !refreshed_at(
                    Self::fresh_reporter(),
                    final(self).observed(),
                    k,
                ),
            event is Refresh <==> final(self).drawn().len() > old(self).drawn().len() && refreshed_at(
                Self::fresh_reporter(),
                final(self).observed(),
                final(self).drawn().len() - 1,
            ),
            final(self).walk() == walk_after(
                final(self).buffer(),
                final(self).step_size(),
                final(self).drawn(),
            ),
            match event {
                SamplerEvent::Refresh { steps, elapsed_nanos } => {
                    &&& final(self).drawn().len() > old(self).drawn().len()
                    &&& final(self).drawn().len() <= final(self).iterations()
                    &&& steps + 1 == final(self).drawn().len()
                    &&& elapsed_nanos == final(self).observed().last().now
                    &&& steps >= old(self).reporter().next_look
                    &&& final(self).reporter().last_signal == Some(elapsed_nanos)
                    &&& old(self).reporter().last_signal matches Some(last) ==> elapsed_nanos - last
                        >= old(self).reporter().interval
                },
                SamplerEvent::Finished(trial) => {
                    &&& final(self).drawn().len() == final(self).iterations()
                    &&& final(self).walk().steps == final(self).iterations()
                    &&& trial.step_size == final(self).step_size()
                    &&& trial.iterations == final(self).iterations()
                    &&& trial.checksum == final(self).walk().checksum
                },
            },
            old(self).awaits_first_refresh() ==> (event matches SamplerEvent::Refresh { steps, .. }
                && steps == old(self).reporter().next_look),
    {
        while self.walk.steps < self.iterations
            invariant
                self.wf(),
                self.buffer == old(self).buffer,
                self.step_size == old(self).step_size,
                self.iterations == old(self).iterations,
                old(self).drawn@.is_prefix_of(self.drawn@),
                old(self).observed@.is_prefix_of(self.observed@),
                old(self).observed@.len() == old(self).drawn@.len(),
                forall|k: int|
                    old(self).observed@.len() <= k < self.observed@.len() ==> !refreshed_at(
                        Self::fresh_reporter(),
                        self.observed@,
                        k,
                    ),
                self.reporter.next_look >= old(self).reporter.next_look,
                self.reporter.interval == old(self).reporter.interval,
                self.reporter.checkpoint == old(self).reporter.checkpoint,
                self.reporter.last_signal == old(self).reporter.last_signal,
                self.drawn@.len() <= old(self).reporter.next_look ==> self.reporter == old(
                    self,
                ).reporter,
                old(self).reporter.last_signal is None && old(self).drawn@.len() <= old(
                    self,
                ).reporter.next_look ==> self.drawn@.len() <= old(self).reporter.next_look,
            decreases self.iterations - self.walk.steps,
        {
            let index = self.walk.steps;
            let ghost offered = self.observed@;
            let ghost reporter_before = self.reporter;
            let draw = next_draw(rng);
            self.walk.advance(self.buffer, self.step_size, draw);
            proof {
                let before = self.drawn@;
                self.drawn@ = before.push(draw);
                assert(self.drawn@.drop_last() =~= before);
            }
            if self.reporter.needs_clock(index) {
                let elapsed_nanos = whole_nanos(&elapsed_since(&self.started));
                let refresh = self.reporter.observe(index, elapsed_nanos);
                proof {
                    self.observed@ = offered.push(Observation { index, now: elapsed_nanos });
                    Self::lemma_one_more_offered(reporter_before, offered, self.observed@);
                }
                if refresh {
                    return SamplerEvent::Refresh { steps: index, elapsed_nanos };
                }
            } else {
                proof {
                    self.observed@ = offered.push(Observation { index, now: 0 });
                    Self::lemma_one_more_offered(reporter_before, offered, self.observed@);
                }
            }
        }
        let elapsed_nanos = whole_nanos(&elapsed_since(&self.started));
        SamplerEvent::Finished(
            StrideTrial {
                step_size: self.step_size,
                iterations: self.iterations,
                elapsed_nanos,
                checksum: self.walk.checksum,
            },
        )
    }
}

} // verus!
