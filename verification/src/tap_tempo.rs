//! The tempo estimator: a bounded history of tap times, newest first, and
//! the tempo that each new tap gives together with it.
//!
//! Times are whole nanoseconds on a clock that only moves forward. Where a
//! later time is expected and an earlier one is given, the time between the
//! two counts as zero.

use std::collections::VecDeque;
use std::time::Instant;
use vstd::arithmetic::div_mod::lemma_fundamental_div_mod;
use vstd::arithmetic::div_mod::lemma_fundamental_div_mod_converse;
use vstd::arithmetic::div_mod::lemma_mod_bound;
use vstd::prelude::*;

verus! {

/// Milliseconds in one minute: a tempo of one beat per millisecond is this
/// many beats per minute.
pub const MILLIS_PER_MINUTE: u128 = 60_000;

/// Nanoseconds in one millisecond.
pub const NANOS_PER_MILLI: u128 = 1_000_000;

/// Nanoseconds in one second.
pub const NANOS_PER_SEC: u128 = 1_000_000_000;

/// The time from `earlier` to `later`, in nanoseconds; zero where `later`
/// comes first.
pub open spec fn elapsed(later: u128, earlier: u128) -> nat {
    if later >= earlier {
        (later - earlier) as nat
    } else {
        0
    }
}

/// A tempo, held as the mean time between two beats in whole milliseconds.
///
/// The interval is never zero, so the beats per minute are always defined.
#[derive(Clone, Copy, Debug, PartialEq, Eq)]
pub struct Tempo {
    interval_ms: u128,
}

impl Tempo {
    #[verifier::type_invariant]
    spec fn positive(self) -> bool {
        self.interval_ms > 0
    }

    /// The mean time between two beats, in whole milliseconds.
    pub closed spec fn interval(self) -> nat {
        self.interval_ms as nat
    }

    /// The beats per minute, rounded down to a whole number.
    pub open spec fn whole_bpm(self) -> nat {
        MILLIS_PER_MINUTE as nat / self.interval()
    }

    /// A tempo is its interval and nothing more: two tempos of the same
    /// interval are the same tempo.
    pub proof fn lemma_interval_determines_tempo(self, other: Tempo)
        requires
            self.interval() == other.interval(),
        ensures
            self == other,
    {
    }

    /// The mean time between two beats, in whole milliseconds.
    pub fn interval_ms(&self) -> (ms: u128)
        ensures
            ms == self.interval(),
            ms > 0,
    {
        proof {
            use_type_invariant(self);
        }
        self.interval_ms
    }

    /// Whole beats per minute: sixty thousand divided by the interval,
    /// rounded down.
    pub fn bpm(&self) -> (beats: u64)
        ensures
            beats == self.whole_bpm(),
            beats <= MILLIS_PER_MINUTE,
    {
        proof {
            use_type_invariant(self);
        }
        let beats: u128 = MILLIS_PER_MINUTE / self.interval_ms;
        beats as u64
    }
}

/// The mean time between the taps at `times`, in whole milliseconds, where
/// `times` holds the newest first: the time from the oldest to the newest,
/// divided by the number of gaps between them, and that in turn by the
/// nanoseconds of a millisecond, each division rounding down. Zero where
/// there are fewer than two taps.
pub open spec fn mean_interval_ms(times: Seq<u128>) -> nat {
    if times.len() < 2 {
        0
    } else {
        elapsed(times.first(), times.last()) / ((times.len() - 1) as nat) / (NANOS_PER_MILLI as nat)
    }
}

/// Whether `tempo` is the tempo of the taps at `times`: the tempo of their
/// mean interval, or none where that interval is zero.
pub open spec fn is_tempo_of(tempo: Option<Tempo>, times: Seq<u128>) -> bool {
    match tempo {
        Some(t) => mean_interval_ms(times) > 0 && t.interval() == mean_interval_ms(times),
        None => mean_interval_ms(times) == 0,
    }
}

/// The `count` newest of `times`, which holds the newest first; all of them
/// where there are no more than `count`.
pub open spec fn newest(times: Seq<u128>, count: nat) -> Seq<u128> {
    if times.len() <= count {
        times
    } else {
        times.take(count as int)
    }
}

/// The mean interval is the greatest number of whole milliseconds that fits
/// into every gap at once: `interval_ms` is the mean interval of `times`
/// where the time from the oldest tap to the newest holds `interval_ms`
/// milliseconds for each gap, and not one millisecond more for each.
pub proof fn lemma_mean_interval_is_greatest_fit(times: Seq<u128>, interval_ms: nat)
    requires
        times.len() >= 2,
        interval_ms * NANOS_PER_MILLI * (times.len() - 1) <= elapsed(times.first(), times.last()),
        elapsed(times.first(), times.last()) < (interval_ms + 1) * NANOS_PER_MILLI * (times.len()
            - 1),
    ensures
        mean_interval_ms(times) == interval_ms,
{
    let span: int = elapsed(times.first(), times.last()) as int;
    let gaps: int = times.len() - 1;
    let least: int = interval_ms * NANOS_PER_MILLI;
    let mean_nanos: int = span / gaps;
    lemma_fundamental_div_mod(span, gaps);
    lemma_mod_bound(span, gaps);
    assert(least <= mean_nanos < least + NANOS_PER_MILLI) by (nonlinear_arith)
        requires
            gaps > 0,
            least * gaps <= span,
            span < (least + NANOS_PER_MILLI) * gaps,
            span == gaps * mean_nanos + span % gaps,
            0 <= span % gaps < gaps,
    ;
    lemma_fundamental_div_mod_converse(
        mean_nanos,
        NANOS_PER_MILLI as int,
        interval_ms as int,
        mean_nanos - least,
    );
}

/// What an estimator is, mathematically: its two settings and the tap times
/// it retains, newest first.
pub struct TapTempoView {
    /// The most tap times that are retained from one tap to the next.
    pub sample_size: nat,
    /// The longest pause between two taps of one session, in nanoseconds.
    pub timeout_nanos: nat,
    /// The retained tap times, newest first.
    pub history: Seq<u128>,
}

impl TapTempoView {
    /// Whether a tap at `now` comes after too long a pause: there is an
    /// earlier tap, and more than the timeout has passed since the newest.
    pub open spec fn timed_out(self, now: u128) -> bool {
        self.history.len() > 0 && elapsed(now, self.history[0]) > self.timeout_nanos
    }

    /// The taps that a tap at `now` is measured with, newest first: the tap
    /// itself and, unless it comes after too long a pause, the taps
    /// retained.
    pub open spec fn window(self, now: u128) -> Seq<u128> {
        if self.timed_out(now) {
            seq![now]
        } else {
            seq![now] + self.history
        }
    }

    /// The state after a tap at `now`: of the taps that it was measured
    /// with, the newest `sample_size` are retained.
    pub open spec fn after_tap(self, now: u128) -> Self {
        TapTempoView { history: newest(self.window(now), self.sample_size), ..self }
    }

    /// The state after the taps of `taps`, taken in order.
    pub open spec fn after_taps(self, taps: Seq<u128>) -> Self
        decreases taps.len(),
    {
        if taps.len() == 0 {
            self
        } else {
            self.after_taps(taps.drop_last()).after_tap(taps.last())
        }
    }

    /// The taps that the last tap of `taps` is measured with, when the taps
    /// of `taps` are taken in order.
    pub open spec fn last_window(self, taps: Seq<u128>) -> Seq<u128>
        recommends
            taps.len() > 0,
    {
        self.after_taps(taps.drop_last()).window(taps.last())
    }
}

/// The tempo estimator.
pub struct TapTempo {
    sample_size: usize,
    timeout_nanos: u128,
    timestamps: VecDeque<u128>,
    started: Instant,
}

impl View for TapTempo {
    type V = TapTempoView;

    closed spec fn view(&self) -> TapTempoView {
        TapTempoView {
            sample_size: self.sample_size as nat,
            timeout_nanos: self.timeout_nanos as nat,
            history: self.timestamps@,
        }
    }
}

/// The tempo of the taps at `times`, newest first.
fn tempo_of(times: &VecDeque<u128>) -> (tempo: Option<Tempo>)
    ensures
        is_tempo_of(tempo, times@),
{
    let count: usize = times.len();
    if count < 2 {
        return None;
    }
    let newest: u128 = times[0];
    let oldest: u128 = times[count - 1];
    if newest <= oldest {
        return None;
    }
    let mean_nanos: u128 = (newest - oldest) / ((count - 1) as u128);
    let mean_ms: u128 = mean_nanos / NANOS_PER_MILLI;
    if mean_ms == 0 {
        return None;
    }
    Some(Tempo { interval_ms: mean_ms })
}

impl TapTempo {
    /// An estimator that retains up to `sample_size` taps and starts anew
    /// after a pause of more than `timeout_secs` seconds. It has seen no tap.
    pub fn new(sample_size: usize, timeout_secs: usize) -> (estimator: Self)
        ensures
            estimator@.sample_size == sample_size,
            estimator@.timeout_nanos == timeout_secs * NANOS_PER_SEC,
            estimator@.history == Seq::<u128>::empty(),
    {
        TapTempo {
            sample_size,
            timeout_nanos: (timeout_secs as u128) * NANOS_PER_SEC,
            timestamps: VecDeque::new(),
            started: Instant::now(),
        }
    }

    /// Records a tap at `now`, a time in nanoseconds, and gives the tempo of
    /// the taps it is measured with: the tap itself and, unless it comes
    /// more than the timeout after the newest of them, the taps retained.
    /// Of these the newest `sample_size` are retained for the next tap.
    ///
    /// There is no tempo while the tap stands alone, nor where the mean
    /// interval is under a millisecond.
    pub fn record_tap(&mut self, now: u128) -> (tempo: Option<Tempo>)
        ensures
            final(self)@ == old(self)@.after_tap(now),
            is_tempo_of(tempo, old(self)@.window(now)),
            final(self)@.history.len() <= old(self)@.sample_size,
            old(self)@.history.len() == 0 ==> tempo.is_none(),
            old(self)@.timed_out(now) ==> tempo.is_none(),
            old(self)@.timed_out(now) && old(self)@.sample_size > 0 ==> final(self)@.history
                == seq![now],
    {
        if self.timestamps.len() > 0 {
            let newest: u128 = self.timestamps[0];
            if now > newest && now - newest > self.timeout_nanos {
                self.timestamps.clear();
            }
        }
        self.timestamps.push_front(now);
        assert(self.timestamps@ =~= old(self)@.window(now));
        let tempo: Option<Tempo> = tempo_of(&self.timestamps);
        self.timestamps.truncate(self.sample_size);
        assert(self@.history =~= old(self)@.after_tap(now).history);
        tempo
    }

    /// The tap times retained, in nanoseconds, newest first.
    pub fn history(&self) -> (times: Vec<u128>)
        ensures
            times@ == self@.history,
    {
        let count: usize = self.timestamps.len();
        let mut times: Vec<u128> = Vec::new();
        let mut next: usize = 0;
        while next < count
            invariant
                next <= count,
                count == self.timestamps@.len(),
                times@ == self.timestamps@.take(next as int),
            decreases count - next,
        {
            times.push(self.timestamps[next]);
            next += 1;
            assert(times@ =~= self.timestamps@.take(next as int));
        }
        assert(times@ =~= self.timestamps@);
        times
    }

    /// Records a tap at the present time on the monotonic clock, counted in
    /// nanoseconds from when the estimator was made.
    ///
    /// The time is whatever the clock says, so the result is that of
    /// `record_tap` for some time.
    pub fn tap(&mut self) -> (tempo: Option<Tempo>)
        ensures
            exists|now: u128|
                final(self)@ == old(self)@.after_tap(now) && is_tempo_of(
                    tempo,
                    old(self)@.window(now),
                ),
            final(self)@.history.len() <= old(self)@.sample_size,
            old(self)@.history.len() == 0 ==> tempo.is_none(),
    {
        let now: u128 = self.started.elapsed().as_nanos();
        self.record_tap(now)
    }
}

} // verus!
