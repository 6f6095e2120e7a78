//! What holds of the estimator over whole sequences of taps.
//!
//! Every statement here is about the mathematical state of an estimator,
//! `TapTempoView`, which `TapTempo::record_tap` follows step by step.

use crate::tap_tempo::elapsed;
use crate::tap_tempo::is_tempo_of;
use crate::tap_tempo::lemma_mean_interval_is_greatest_fit;
use crate::tap_tempo::mean_interval_ms;
use crate::tap_tempo::TapTempoView;
use crate::tap_tempo::Tempo;
use crate::tap_tempo::MILLIS_PER_MINUTE;
use crate::tap_tempo::NANOS_PER_MILLI;
use vstd::prelude::*;

verus! {

/// No timeout falls inside `taps`: from each tap to the next, no more than
/// `timeout_nanos` passes.
pub open spec fn unbroken(taps: Seq<u128>, timeout_nanos: nat) -> bool {
    forall|i: int| 0 < i < taps.len() ==> elapsed(#[trigger] taps[i], taps[i - 1]) <= timeout_nanos
}

/// Each tap of `taps` comes exactly `step` nanoseconds after the one before.
pub open spec fn evenly_spaced(taps: Seq<u128>, step: int) -> bool {
    forall|i: int| 0 <= i < taps.len() ==> #[trigger] taps[i] == taps[0] + i * step
}

/// The times of `history` run from the newest to the oldest: none is later
/// than the one in front of it.
pub open spec fn newest_first(history: Seq<u128>) -> bool {
    forall|i: int, j: int| 0 <= i <= j < history.len() ==> history[i] >= history[j]
}

/// The taps of `taps` come in the order of time: none is earlier than one
/// before it.
pub open spec fn in_order(taps: Seq<u128>) -> bool {
    forall|i: int, j: int| 0 <= i <= j < taps.len() ==> taps[i] <= taps[j]
}

/// The `count` latest taps of `taps`, newest first; all of them where there
/// are no more than `count`.
pub open spec fn latest(taps: Seq<u128>, count: nat) -> Seq<u128> {
    Seq::new(
        if taps.len() <= count {
            taps.len()
        } else {
            count
        },
        |j: int| taps[taps.len() - 1 - j],
    )
}

/// Whether two histories agree in their `count` newest times: they are the
/// same, or both hold at least `count` times and the same in front.
pub open spec fn same_newest(first: Seq<u128>, second: Seq<u128>, count: nat) -> bool {
    first == second || (first.len() >= count && second.len() >= count && first.take(count as int)
        == second.take(count as int))
}

/// The first tap of an estimator gives no tempo, whatever its settings and
/// whenever it comes.
pub proof fn lemma_first_tap_gives_no_tempo(fresh: TapTempoView, now: u128)
    requires
        fresh.history.len() == 0,
    ensures
        mean_interval_ms(fresh.window(now)) == 0,
        is_tempo_of(None, fresh.window(now)),
        forall|tempo: Tempo| !is_tempo_of(Some(tempo), fresh.window(now)),
{
}

/// A tap that comes more than the timeout after the one before gives no
/// tempo, and is afterwards the only tap retained.
pub proof fn lemma_tap_after_pause_starts_anew(state: TapTempoView, now: u128)
    requires
        state.sample_size > 0,
        state.timed_out(now),
    ensures
        state.window(now) == seq![now],
        state.after_tap(now).history == seq![now],
        is_tempo_of(None, state.window(now)),
        forall|tempo: Tempo| !is_tempo_of(Some(tempo), state.window(now)),
{
}

/// After a tap an estimator retains at most `sample_size` times, the time of
/// that tap in front if it retains any. The two newest are never more than
/// the timeout apart.
pub proof fn lemma_tap_keeps_history_bounded(state: TapTempoView, now: u128)
    ensures
        state.after_tap(now).sample_size == state.sample_size,
        state.after_tap(now).timeout_nanos == state.timeout_nanos,
        state.after_tap(now).history.len() <= state.sample_size,
        state.sample_size > 0 ==> state.after_tap(now).history.len() > 0
            && state.after_tap(now).history[0] == now,
        state.after_tap(now).history.len() >= 2 ==> elapsed(
            state.after_tap(now).history[0],
            state.after_tap(now).history[1],
        ) <= state.timeout_nanos,
{
}

/// However many taps an estimator has seen, it retains at most `sample_size`
/// times.
pub proof fn lemma_history_never_exceeds_sample_size(state: TapTempoView, taps: Seq<u128>)
    requires
        state.history.len() <= state.sample_size,
    ensures
        state.after_taps(taps).sample_size == state.sample_size,
        state.after_taps(taps).timeout_nanos == state.timeout_nanos,
        state.after_taps(taps).history.len() <= state.sample_size,
    decreases taps.len(),
{
    if taps.len() > 0 {
        lemma_history_never_exceeds_sample_size(state, taps.drop_last());
        lemma_tap_keeps_history_bounded(state.after_taps(taps.drop_last()), taps.last());
    }
}

/// Taps that come in the order of time leave the history in that order:
/// where the retained times run from newest to oldest and the tap is no
/// earlier than the newest, the times that the tap is measured with run so
/// too, and so do those retained after it.
pub proof fn lemma_tap_keeps_newest_first(state: TapTempoView, now: u128)
    requires
        newest_first(state.history),
        state.history.len() > 0 ==> now >= state.history[0],
    ensures
        newest_first(state.window(now)),
        newest_first(state.after_tap(now).history),
{
    let window: Seq<u128> = state.window(now);
    assert forall|i: int, j: int| 0 <= i <= j < window.len() implies window[i] >= window[j] by {
        if !state.timed_out(now) && j > 0 {
            assert(window[j] == state.history[j - 1]);
            if i > 0 {
                assert(window[i] == state.history[i - 1]);
            } else {
                assert(state.history[0] >= state.history[j - 1]);
            }
        }
    }
    let after: Seq<u128> = state.after_tap(now).history;
    assert forall|i: int, j: int| 0 <= i <= j < after.len() implies after[i] >= after[j] by {
        assert(after[i] == window[i]);
        assert(after[j] == window[j]);
    }
}

/// An estimator whose taps come in the order of time retains them in that
/// order, the newest in front.
pub proof fn lemma_taps_in_order_keep_newest_first(state: TapTempoView, taps: Seq<u128>)
    requires
        newest_first(state.history),
        in_order(taps),
        state.history.len() > 0 && taps.len() > 0 ==> taps[0] >= state.history[0],
    ensures
        newest_first(state.after_taps(taps).history),
        taps.len() > 0 && state.after_taps(taps).history.len() > 0 ==> state.after_taps(
            taps,
        ).history[0] == taps.last(),
    decreases taps.len(),
{
    if taps.len() > 0 {
        let earlier: Seq<u128> = taps.drop_last();
        assert forall|i: int, j: int| 0 <= i <= j < earlier.len() implies earlier[i]
            <= earlier[j] by {
            assert(earlier[i] == taps[i]);
            assert(earlier[j] == taps[j]);
        }
        if earlier.len() > 0 {
            assert(earlier[0] == taps[0]);
            assert(earlier.last() == taps[taps.len() - 2]);
        }
        lemma_taps_in_order_keep_newest_first(state, earlier);
        let before: TapTempoView = state.after_taps(earlier);
        lemma_tap_keeps_newest_first(before, taps.last());
        lemma_tap_keeps_history_bounded(before, taps.last());
    }
}

/// While no timeout falls inside the taps that an estimator has seen since
/// it was made, it retains exactly the latest `sample_size` of them, and
/// its last tap was measured with those and one more.
pub proof fn lemma_history_is_latest_taps(fresh: TapTempoView, taps: Seq<u128>)
    requires
        fresh.history.len() == 0,
        unbroken(taps, fresh.timeout_nanos),
    ensures
        fresh.after_taps(taps).sample_size == fresh.sample_size,
        fresh.after_taps(taps).timeout_nanos == fresh.timeout_nanos,
        fresh.after_taps(taps).history == latest(taps, fresh.sample_size),
        taps.len() > 0 ==> fresh.last_window(taps) == latest(taps, fresh.sample_size + 1),
    decreases taps.len(),
{
    if taps.len() == 0 {
        assert(fresh.after_taps(taps).history =~= latest(taps, fresh.sample_size));
    } else {
        let earlier: Seq<u128> = taps.drop_last();
        let now: u128 = taps.last();
        assert forall|i: int| 0 < i < earlier.len() implies elapsed(
            #[trigger] earlier[i],
            earlier[i - 1],
        ) <= fresh.timeout_nanos by {
            assert(earlier[i] == taps[i]);
            assert(earlier[i - 1] == taps[i - 1]);
        }
        lemma_history_is_latest_taps(fresh, earlier);
        let before: TapTempoView = fresh.after_taps(earlier);
        if before.history.len() > 0 {
            assert(before.history[0] == earlier[earlier.len() - 1]);
            assert(earlier[earlier.len() - 1] == taps[taps.len() - 2]);
            assert(now == taps[taps.len() - 1]);
            assert(!before.timed_out(now));
        }
        assert(before.window(now) =~= latest(taps, fresh.sample_size + 1));
        assert(before.after_tap(now).history =~= latest(taps, fresh.sample_size));
    }
}

/// Two estimators with the same settings whose histories agree in their
/// `count` newest times agree in one more after the same tap, or in all
/// that they retain.
pub proof fn lemma_tap_extends_agreement(
    first: TapTempoView,
    second: TapTempoView,
    now: u128,
    count: nat,
)
    requires
        first.sample_size == second.sample_size,
        first.timeout_nanos == second.timeout_nanos,
        same_newest(first.history, second.history, count),
    ensures
        count + 1 <= first.sample_size ==> same_newest(
            first.after_tap(now).history,
            second.after_tap(now).history,
            count + 1,
        ),
        count + 1 > first.sample_size ==> first.after_tap(now).history == second.after_tap(
            now,
        ).history,
{
    let first_window: Seq<u128> = first.window(now);
    let second_window: Seq<u128> = second.window(now);
    let first_after: Seq<u128> = first.after_tap(now).history;
    let second_after: Seq<u128> = second.after_tap(now).history;
    if first.history == second.history {
        assert(first_window == second_window);
    } else if count == 0 {
        if first.sample_size > 0 {
            assert(first_after.take(1) =~= seq![now]);
            assert(second_after.take(1) =~= seq![now]);
        } else {
            assert(first_after =~= second_after);
        }
    } else {
        assert(first.history[0] == first.history.take(count as int)[0]);
        assert(second.history[0] == second.history.take(count as int)[0]);
        assert(first.timed_out(now) == second.timed_out(now));
        if first.timed_out(now) {
            assert(first_window == second_window);
        } else {
            assert forall|i: int| 0 <= i < count + 1 implies first_window[i] == second_window[i] by {
                if i > 0 {
                    assert(first.history[i - 1] == first.history.take(count as int)[i - 1]);
                    assert(second.history[i - 1] == second.history.take(count as int)[i - 1]);
                }
            }
            if count + 1 <= first.sample_size {
                assert(first_after.take((count + 1) as int) =~= second_after.take((count + 1) as int));
            } else {
                assert(first_after =~= second_after);
            }
        }
    }
}

/// Two estimators with the same settings agree, after the same taps, in as
/// many of their newest times as there were taps; in all that they retain
/// where there were more taps than `sample_size`.
pub proof fn lemma_taps_extend_agreement(
    first: TapTempoView,
    second: TapTempoView,
    taps: Seq<u128>,
)
    requires
        first.sample_size == second.sample_size,
        first.timeout_nanos == second.timeout_nanos,
    ensures
        first.after_taps(taps).sample_size == first.sample_size,
        second.after_taps(taps).sample_size == first.sample_size,
        first.after_taps(taps).timeout_nanos == second.after_taps(taps).timeout_nanos,
        taps.len() <= first.sample_size ==> same_newest(
            first.after_taps(taps).history,
            second.after_taps(taps).history,
            taps.len(),
        ),
        taps.len() > first.sample_size ==> first.after_taps(taps).history == second.after_taps(
            taps,
        ).history,
    decreases taps.len(),
{
    if taps.len() == 0 {
        assert(first.history.take(0) =~= second.history.take(0));
    } else {
        let earlier: Seq<u128> = taps.drop_last();
        lemma_taps_extend_agreement(first, second, earlier);
        let first_before: TapTempoView = first.after_taps(earlier);
        let second_before: TapTempoView = second.after_taps(earlier);
        if earlier.len() <= first.sample_size {
            lemma_tap_extends_agreement(first_before, second_before, taps.last(), earlier.len());
        } else {
            lemma_tap_extends_agreement(
                first_before,
                second_before,
                taps.last(),
                first.sample_size,
            );
        }
    }
}

/// After as many taps as an estimator retains, nothing is left of what came
/// before them: two estimators with the same settings that see the same
/// `sample_size` taps or more retain the same times, whatever they retained
/// before.
pub proof fn lemma_only_latest_taps_are_retained(
    first: TapTempoView,
    second: TapTempoView,
    taps: Seq<u128>,
)
    requires
        first.sample_size == second.sample_size,
        first.timeout_nanos == second.timeout_nanos,
        first.history.len() <= first.sample_size,
        second.history.len() <= second.sample_size,
        taps.len() >= first.sample_size,
    ensures
        first.after_taps(taps) == second.after_taps(taps),
{
    lemma_taps_extend_agreement(first, second, taps);
    lemma_history_never_exceeds_sample_size(first, taps);
    lemma_history_never_exceeds_sample_size(second, taps);
    let first_after: Seq<u128> = first.after_taps(taps).history;
    let second_after: Seq<u128> = second.after_taps(taps).history;
    if first_after != second_after {
        assert(first_after =~= first_after.take(first.sample_size as int));
        assert(second_after =~= second_after.take(first.sample_size as int));
    }
}

/// Taps that come exactly `interval_ms` milliseconds apart give, from the
/// second on, a tempo of that very interval: sixty thousand divided by
/// `interval_ms` beats a minute. The estimator starts with no tap, retains
/// at least one, and its timeout is no shorter than the interval.
pub proof fn lemma_steady_taps_give_their_tempo(
    fresh: TapTempoView,
    taps: Seq<u128>,
    interval_ms: nat,
)
    requires
        fresh.history.len() == 0,
        fresh.sample_size >= 1,
        taps.len() >= 2,
        interval_ms > 0,
        interval_ms * NANOS_PER_MILLI <= fresh.timeout_nanos,
        evenly_spaced(taps, interval_ms * NANOS_PER_MILLI),
    ensures
        mean_interval_ms(fresh.last_window(taps)) == interval_ms,
        !is_tempo_of(None, fresh.last_window(taps)),
        forall|tempo: Tempo| #[trigger]
            is_tempo_of(Some(tempo), fresh.last_window(taps)) ==> tempo.interval() == interval_ms
                && tempo.whole_bpm() == MILLIS_PER_MINUTE as nat / interval_ms,
{
    let step: int = interval_ms * NANOS_PER_MILLI;
    assert forall|i: int| 0 < i < taps.len() implies elapsed(#[trigger] taps[i], taps[i - 1])
        <= fresh.timeout_nanos by {
        assert(taps[i] == taps[0] + i * step);
        assert(taps[i - 1] == taps[0] + (i - 1) * step);
        assert(i * step - (i - 1) * step == step) by (nonlinear_arith);
    }
    lemma_history_is_latest_taps(fresh, taps);
    let window: Seq<u128> = fresh.last_window(taps);
    let measured: int = window.len() as int;
    assert(measured >= 2);
    let newest: int = taps.len() - 1;
    let oldest: int = taps.len() - measured;
    assert(window.first() == taps[newest]);
    assert(window.last() == taps[oldest]);
    assert(taps[newest] == taps[0] + newest * step);
    assert(taps[oldest] == taps[0] + oldest * step);
    assert(newest * step - oldest * step == (measured - 1) * step) by (nonlinear_arith)
        requires
            newest - oldest == measured - 1,
    ;
    assert(0 <= (measured - 1) * step) by (nonlinear_arith)
        requires
            measured >= 2,
            step >= 0,
    ;
    assert(elapsed(window.first(), window.last()) == (measured - 1) * step);
    assert(interval_ms * NANOS_PER_MILLI * (measured - 1) == (measured - 1) * step
        && (measured - 1) * step < (interval_ms + 1) * NANOS_PER_MILLI * (measured - 1))
        by (nonlinear_arith)
        requires
            step == interval_ms * NANOS_PER_MILLI,
            measured >= 2,
    ;
    lemma_mean_interval_is_greatest_fit(window, interval_ms);
}

/// Steady taps prevail over what came before them: once an estimator has
/// seen more taps than it retains, all exactly `interval_ms` milliseconds
/// apart, its tempo is that of this interval, whatever it retained before.
pub proof fn lemma_steady_taps_prevail(state: TapTempoView, taps: Seq<u128>, interval_ms: nat)
    requires
        state.history.len() <= state.sample_size,
        state.sample_size >= 1,
        taps.len() > state.sample_size,
        interval_ms > 0,
        interval_ms * NANOS_PER_MILLI <= state.timeout_nanos,
        evenly_spaced(taps, interval_ms * NANOS_PER_MILLI),
    ensures
        mean_interval_ms(state.last_window(taps)) == interval_ms,
{
    let fresh: TapTempoView = TapTempoView { history: Seq::empty(), ..state };
    lemma_only_latest_taps_are_retained(state, fresh, taps.drop_last());
    lemma_steady_taps_give_their_tempo(fresh, taps, interval_ms);
}

} // verus!
