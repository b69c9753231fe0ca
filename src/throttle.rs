//! Pacing: a moving average of how long each frame waited for the previous
//! one to be drawn, and the sleep that the session adds to each frame.
use vstd::prelude::*;
use std::collections::VecDeque;

verus! {

/// Sum of `s[i] / w` over the samples (each term rounded down).
pub open spec fn window_sum(s: Seq<u64>, w: nat) -> int
    decreases s.len(),
{
    if s.len() == 0 || w == 0 {
        0
    } else {
        window_sum(s.drop_last(), w) + (s.last() as int) / (w as int)
    }
}

proof fn lemma_window_sum_bound(s: Seq<u64>, w: nat)
    requires
        w > 0,
    ensures
        0 <= window_sum(s, w) <= s.len() * ((u64::MAX as int) / (w as int)),
    decreases s.len(),
{
    if s.len() > 0 {
        lemma_window_sum_bound(s.drop_last(), w);
        assert((s.last() as int) / (w as int) <= (u64::MAX as int) / (w as int)) by (nonlinear_arith)
            requires
                s.last() <= u64::MAX,
                w > 0,
        ;
        assert((s.len() - 1) * ((u64::MAX as int) / (w as int)) + (u64::MAX as int) / (w as int) == s.len() * ((u64::MAX as int) / (w as int)))
            by (nonlinear_arith);
    }
}

proof fn lemma_window_sum_front(s: Seq<u64>, w: nat)
    requires
        s.len() > 0,
        w > 0,
    ensures
        window_sum(s, w) == (s[0] as int) / (w as int) + window_sum(s.subrange(1, s.len() as int), w),
    decreases s.len(),
{
    if s.len() > 1 {
        lemma_window_sum_front(s.drop_last(), w);
        assert(s.drop_last().subrange(1, s.len() - 1) =~= s.subrange(1, s.len() as int).drop_last());
    } else {
        assert(s.drop_last() =~= Seq::<u64>::empty());
        assert(s.subrange(1, s.len() as int) =~= Seq::<u64>::empty());
    }
}

proof fn lemma_window_len_bound(n: int, w: nat)
    requires
        0 <= n <= w,
        w > 0,
    ensures
        n * ((u64::MAX as int) / (w as int)) <= u64::MAX,
{
    assert(n * ((u64::MAX as int) / (w as int)) <= (w as int) * ((u64::MAX as int) / (w as int))) by (nonlinear_arith)
        requires
            0 <= n <= w,
            w > 0,
    ;
    vstd::arithmetic::div_mod::lemma_fundamental_div_mod(u64::MAX as int, w as int);
    assert(u64::MAX as int % (w as int) >= 0);
}

/// The average of the last `window_length` samples, each divided by the
/// window length before summing; the sum counts as if missing samples were
/// zero.
pub struct MovingAverage {
    window_length: usize,
    samples: VecDeque<u64>,
    mean: u64,
}

impl MovingAverage {
    pub closed spec fn spec_window(&self) -> nat {
        self.window_length as nat
    }

    pub closed spec fn spec_samples(&self) -> Seq<u64> {
        self.samples@
    }

    pub closed spec fn wf(&self) -> bool {
        &&& self.window_length > 0
        &&& self.samples@.len() <= self.window_length
        &&& self.mean == window_sum(self.samples@, self.window_length as nat)
    }

    pub fn new(window_length: usize) -> (r: Self)
        requires
            window_length > 0,
        ensures
            r.wf(),
            r.spec_window() == window_length,
            r.spec_samples().len() == 0,
    {
        MovingAverage { window_length, samples: VecDeque::new(), mean: 0 }
    }

    /// Adds a sample, in nanoseconds; the oldest sample leaves once the
    /// window is full.
    pub fn add(&mut self, new: u64)
        requires
            old(self).wf(),
        ensures
            final(self).wf(),
            final(self).spec_window() == old(self).spec_window(),
            old(self).spec_samples().len() < old(self).spec_window() ==> final(self).spec_samples() == old(
                self,
            ).spec_samples().push(new),
            old(self).spec_samples().len() == old(self).spec_window() ==> final(self).spec_samples() == old(
                self,
            ).spec_samples().push(new).subrange(1, old(self).spec_samples().len() as int + 1),
    {
        let w = self.window_length as u64;
        let ghost ws = self.window_length as nat;
        let ghost before = self.samples@;
        proof {
            lemma_window_sum_bound(before, ws);
            lemma_window_len_bound(before.len() as int, ws);
        }
        if self.samples.len() < self.window_length {
            self.samples.push_back(new);
            proof {
                assert(self.samples@.drop_last() =~= before);
                lemma_window_sum_bound(self.samples@, ws);
                lemma_window_len_bound(self.samples@.len() as int, ws);
            }
            self.mean = self.mean + new / w;
        } else {
            let oldest = self.samples.pop_front();
            proof {
                lemma_window_sum_front(before, ws);
                lemma_window_sum_bound(before.subrange(1, before.len() as int), ws);
            }
            match oldest {
                Some(o) => {
                    self.mean = self.mean - o / w;
                },
                None => {},
            }
            self.samples.push_back(new);
            proof {
                assert(self.samples@.drop_last() =~= before.subrange(1, before.len() as int));
                lemma_window_sum_bound(self.samples@, ws);
                lemma_window_len_bound(self.samples@.len() as int, ws);
                assert(before.push(new).subrange(1, before.len() as int + 1) =~= self.samples@);
            }
            self.mean = self.mean + new / w;
        }
    }

    /// The current average, in nanoseconds.
    pub fn get(&self) -> (r: u64)
        requires
            self.wf(),
        ensures
            r == window_sum(self.spec_samples(), self.spec_window()),
    {
        self.mean
    }
}

} // verus!

verus! {

/// Average delays above this, in nanoseconds, make the session sleep more.
pub const THRESHOLD_NS: u64 = 1_000_000;

/// The sleep shrinks once per this many nanoseconds.
pub const DECREASE_PERIOD_NS: u64 = 500_000_000;

/// Samples in the moving average, and adjustments skipped after a raise.
pub const THROTTLE_WINDOW: usize = 50;

/// How much the sleep shrinks, by its size; it never goes below zero.
pub open spec fn decrease_step(sleep: u64) -> u64 {
    if sleep > 100_000_000 {
        5_000_000
    } else if sleep > 50_000_000 {
        2_000_000
    } else {
        1_000_000
    }
}

/// What the controller decides from.
pub struct ThrottleView {
    pub sleep: u64,
    pub last_decrease: u64,
    pub freeze: usize,
}

/// The controller after a sample, given the new average and the time.
pub open spec fn throttle_step(s: ThrottleView, average: u64, now: u64) -> ThrottleView {
    if s.freeze != 0 {
        ThrottleView { freeze: (s.freeze - 1) as usize, ..s }
    } else {
        let raised = if average > THRESHOLD_NS {
            ThrottleView {
                sleep: if s.sleep + average > u64::MAX { u64::MAX } else { (s.sleep + average) as u64 },
                freeze: THROTTLE_WINDOW,
                ..s
            }
        } else {
            s
        };
        if now - raised.last_decrease > DECREASE_PERIOD_NS {
            let minus = decrease_step(raised.sleep);
            ThrottleView {
                sleep: if raised.sleep >= minus { (raised.sleep - minus) as u64 } else { 0 },
                last_decrease: now,
                ..raised
            }
        } else {
            raised
        }
    }
}

/// Adjusts how long the session sleeps after each frame (all times in
/// nanoseconds).
pub struct ThrottleController {
    sleep_duration: u64,
    last_decrease: u64,
    delay_average: MovingAverage,
    window_length: usize,
    freeze_counter: usize,
}

impl ThrottleController {
    pub closed spec fn view(&self) -> ThrottleView {
        ThrottleView { sleep: self.sleep_duration, last_decrease: self.last_decrease, freeze: self.freeze_counter }
    }

    pub closed spec fn average(&self) -> MovingAverage {
        self.delay_average
    }

    pub closed spec fn wf(&self) -> bool {
        &&& self.delay_average.wf()
        &&& self.delay_average.spec_window() == THROTTLE_WINDOW
        &&& self.window_length == THROTTLE_WINDOW
    }

    /// A controller that does not sleep yet; `now` is the current time.
    pub fn new(now: u64) -> (r: Self)
        ensures
            r.wf(),
            r.view() == (ThrottleView { sleep: 0, last_decrease: now, freeze: 0 }),
            r.average().spec_samples().len() == 0,
    {
        ThrottleController {
            sleep_duration: 0,
            last_decrease: now,
            delay_average: MovingAverage::new(THROTTLE_WINDOW),
            window_length: THROTTLE_WINDOW,
            freeze_counter: 0,
        }
    }

    /// Takes how long a frame waited for the previous one to be drawn.
    pub fn register_leftover_frame_delay(&mut self, delay: u64, now: u64)
        requires
            old(self).wf(),
        ensures
            final(self).wf(),
            final(self).view() == throttle_step(
                old(self).view(),
                window_sum(final(self).average().spec_samples(), THROTTLE_WINDOW as nat) as u64,
                now,
            ),
            old(self).average().spec_samples().len() < THROTTLE_WINDOW ==> final(self).average().spec_samples()
                == old(self).average().spec_samples().push(delay),
            old(self).average().spec_samples().len() == THROTTLE_WINDOW ==> final(self).average().spec_samples()
                == old(self).average().spec_samples().push(delay).subrange(1, THROTTLE_WINDOW as int + 1),
    {
        self.delay_average.add(delay);
        let average = self.delay_average.get();
        if self.freeze_counter != 0 {
            self.freeze_counter = self.freeze_counter - 1;
            return;
        }
        if average > THRESHOLD_NS {
            self.sleep_duration = self.sleep_duration.saturating_add(average);
            self.freeze_counter = self.window_length;
        }
        if now.saturating_sub(self.last_decrease) > DECREASE_PERIOD_NS {
            let minus = if self.sleep_duration > 100_000_000 {
                5_000_000
            } else if self.sleep_duration > 50_000_000 {
                2_000_000
            } else {
                1_000_000
            };
            self.sleep_duration = self.sleep_duration.saturating_sub(minus);
            self.last_decrease = now;
        }
    }

    /// How long to sleep after each frame, in nanoseconds.
    pub fn sleep_duration(&self) -> (r: u64)
        ensures
            r == self.view().sleep,
    {
        self.sleep_duration
    }
}

} // verus!
