//! The frame pacer: decides, against a monotonic clock, whether a new sample
//! may be taken now or how long the caller should wait before asking again.

use vstd::prelude::*;

verus! {

/// The target period for 60 frames per second, in microseconds.
pub const FRAME_PERIOD_US: u64 = 16_666;

/// What the pacer tells its caller.
#[derive(Clone, Copy, PartialEq, Eq, Debug, Structural)]
pub enum Pace {
    /// Take a sample now; the pacer has recorded this instant.
    Sample,
    /// Ask again after this many microseconds.
    Wait(u64),
}

/// The state of a pacer: its period and the instant of the last accepted sample.
pub struct PacerView {
    pub period: u64,
    pub last: Option<u64>,
}

/// Microseconds from `last` to `now`; a clock that appears to run backwards
/// counts as no time at all.
pub open spec fn elapsed(last: u64, now: u64) -> int {
    if now >= last {
        now - last
    } else {
        0
    }
}

/// One attempt at `now`: accepted when no sample was taken yet or at least one
/// period has passed since the last one.
pub open spec fn pace_step(v: PacerView, now: u64) -> (PacerView, Pace) {
    match v.last {
        None => (PacerView { period: v.period, last: Some(now) }, Pace::Sample),
        Some(t) => if elapsed(t, now) >= v.period {
            (PacerView { period: v.period, last: Some(now) }, Pace::Sample)
        } else {
            (v, Pace::Wait((v.period - elapsed(t, now)) as u64))
        },
    }
}

/// Attempts at each instant of `times` in turn: the final state and the
/// instants that were accepted.
pub open spec fn pace_run(v: PacerView, times: Seq<u64>) -> (PacerView, Seq<u64>)
    decreases times.len(),
{
    if times.len() == 0 {
        (v, Seq::empty())
    } else {
        let (w, accepted) = pace_run(v, times.drop_last());
        let (w2, pace) = pace_step(w, times.last());
        (w2, if pace is Sample {
            accepted.push(times.last())
        } else {
            accepted
        })
    }
}

pub struct FramePacer {
    period: u64,
    last: Option<u64>,
}

impl View for FramePacer {
    type V = PacerView;

    closed spec fn view(&self) -> PacerView {
        PacerView { period: self.period, last: self.last }
    }
}

impl FramePacer {
    /// A pacer with the given period in microseconds that has accepted nothing yet.
    pub fn new(period_us: u64) -> (r: FramePacer)
        requires
            period_us > 0,
        ensures
            r@ == (PacerView { period: period_us, last: None }),
    {
        FramePacer { period: period_us, last: None }
    }

    pub fn period(&self) -> (r: u64)
        ensures
            r == self@.period,
    {
        self.period
    }

    /// Asks whether a sample may be taken at `now` (microseconds on a monotonic
    /// clock). On `Sample` the instant is recorded; on `Wait(d)`, `d` is the time
    /// left until one period has passed since the last sample, never zero.
    pub fn poll(&mut self, now: u64) -> (r: Pace)
        ensures
            (final(self)@, r) == pace_step(old(self)@, now),
            r matches Pace::Wait(d) ==> 0 < d <= old(self)@.period,
    {
        match self.last {
            None => {
                self.last = Some(now);
                Pace::Sample
            },
            Some(t) => {
                let gone = if now >= t {
                    now - t
                } else {
                    0
                };
                if gone >= self.period {
                    self.last = Some(now);
                    Pace::Sample
                } else {
                    Pace::Wait(self.period - gone)
                }
            },
        }
    }

    /// How long from `now` until the next sample may be taken: zero when one may
    /// be taken already.
    pub fn time_until_next(&self, now: u64) -> (r: u64)
        ensures
            r == match self@.last {
                None => 0,
                Some(t) => if elapsed(t, now) >= self@.period {
                    0
                } else {
                    self@.period - elapsed(t, now)
                },
            },
    {
        match self.last {
            None => 0,
            Some(t) => {
                let gone = if now >= t {
                    now - t
                } else {
                    0
                };
                if gone >= self.period {
                    0
                } else {
                    self.period - gone
                }
            },
        }
    }
}

proof fn lemma_pace_run_state(v: PacerView, times: Seq<u64>)
    requires
        forall|i: int, j: int| 0 <= i <= j < times.len() ==> times[i] <= times[j],
        v.last matches Some(t0) ==> forall|i: int| 0 <= i < times.len() ==> t0 <= #[trigger] times[i],
    ensures
        ({
            let (w, accepted) = pace_run(v, times);
            &&& w.period == v.period
            &&& accepted.len() > 0 ==> w.last == Some(accepted.last())
            &&& w.last matches Some(t) ==> (v.last == Some(t) || (times.len() > 0 && t
                <= times.last()))
            &&& forall|i: int|
                0 <= i < accepted.len() - 1 ==> #[trigger] accepted[i + 1] - accepted[i] >= v.period
        }),
    decreases times.len(),
{
    if times.len() > 0 {
        let prefix = times.drop_last();
        assert forall|i: int, j: int| 0 <= i <= j < prefix.len() implies prefix[i] <= prefix[j] by {
            assert(prefix[i] == times[i] && prefix[j] == times[j]);
        }
        if let Some(t0) = v.last {
            assert forall|i: int| 0 <= i < prefix.len() implies t0 <= #[trigger] prefix[i] by {
                assert(prefix[i] == times[i]);
            }
        }
        lemma_pace_run_state(v, prefix);
        let (w, accepted) = pace_run(v, prefix);
        let now = times.last();
        if let Some(t) = w.last {
            if prefix.len() > 0 && v.last != Some(t) {
                assert(prefix.last() == times[times.len() - 2]);
            }
            assert(t <= now);
        }
    }
}

/// However often the pacer is asked, on a clock that never runs backwards, two
/// consecutive accepted samples lie at least one period apart.
pub proof fn lemma_samples_spaced_by_period(v: PacerView, times: Seq<u64>)
    requires
        v.period > 0,
        forall|i: int, j: int| 0 <= i <= j < times.len() ==> times[i] <= times[j],
        v.last matches Some(t0) ==> forall|i: int| 0 <= i < times.len() ==> t0 <= #[trigger] times[i],
    ensures
        forall|i: int|
            0 <= i < pace_run(v, times).1.len() - 1 ==> #[trigger] pace_run(v, times).1[i + 1]
                - pace_run(v, times).1[i] >= v.period,
{
    lemma_pace_run_state(v, times);
}

} // verus!
