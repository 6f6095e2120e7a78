use taptempo::tap_tempo::TapTempo;
use taptempo::tap_tempo::Tempo;

const MS: u128 = 1_000_000;
const SEC: u128 = 1_000_000_000;

fn beats_per_minute(tempo: Tempo) -> f64 {
    60_000.0 / tempo.interval_ms() as f64
}

#[test]
fn test_tap_tempo_single_tap() {
    let mut tap_tempo = TapTempo::new(5, 5);
    assert_eq!(tap_tempo.tap(), None);
}

#[test]
fn test_tap_tempo_multiple_taps() {
    let mut tap_tempo = TapTempo::new(5, 5);
    tap_tempo.record_tap(0);
    let bpm = beats_per_minute(tap_tempo.record_tap(500 * MS).unwrap());
    assert!(bpm > 100.0 && bpm < 130.0);
}

#[test]
fn test_tap_tempo_average() {
    let mut tap_tempo = TapTempo::new(5, 5);
    tap_tempo.record_tap(0);
    tap_tempo.record_tap(2_000);
    let bpm = beats_per_minute(tap_tempo.record_tap(500 * MS).unwrap());
    assert!(bpm > 239.0 && bpm < 241.0);
}

#[test]
fn test_tap_tempo_timeout() {
    let mut tap_tempo = TapTempo::new(5, 1);
    tap_tempo.record_tap(0);
    assert_eq!(tap_tempo.record_tap(2 * SEC), None);
}

#[test]
fn test_tap_tempo_sample_size() {
    let mut tap_tempo = TapTempo::new(3, 5);
    tap_tempo.record_tap(0);
    tap_tempo.record_tap(1_000);
    tap_tempo.record_tap(2_000);
    tap_tempo.record_tap(500 * MS);
    tap_tempo.record_tap(1_000 * MS);
    let bpm = beats_per_minute(tap_tempo.record_tap(1_500 * MS).unwrap());
    assert!(bpm > 100.0 && bpm < 130.0);
}

#[test]
fn first_recorded_tap_gives_no_tempo() {
    for sample_size in 0..6 {
        for now in [0, 1, 777 * MS, u128::MAX] {
            let mut tap_tempo = TapTempo::new(sample_size, 5);
            assert_eq!(tap_tempo.record_tap(now), None);
        }
    }
}

#[test]
fn two_taps_half_a_second_apart_are_120_bpm() {
    let mut tap_tempo = TapTempo::new(5, 5);
    assert_eq!(tap_tempo.record_tap(3 * SEC), None);
    let tempo = tap_tempo.record_tap(3 * SEC + 500 * MS).unwrap();
    assert_eq!(tempo.interval_ms(), 500);
    assert_eq!(tempo.bpm(), 120);
    assert_eq!(beats_per_minute(tempo), 120.0);
}

#[test]
fn tempo_is_sixty_thousand_over_the_interval() {
    let mut tap_tempo = TapTempo::new(5, 5);
    tap_tempo.record_tap(0);
    let tempo = tap_tempo.record_tap(700 * MS).unwrap();
    assert_eq!(tempo.interval_ms(), 700);
    assert_eq!(tempo.bpm(), 85);
    let bpm = beats_per_minute(tempo);
    assert!(bpm > 85.71 && bpm < 85.72);
}

#[test]
fn mean_interval_spans_newest_to_oldest() {
    let mut tap_tempo = TapTempo::new(5, 5);
    tap_tempo.record_tap(0);
    assert_eq!(tap_tempo.record_tap(100 * MS).unwrap().interval_ms(), 100);
    let tempo = tap_tempo.record_tap(1_000 * MS).unwrap();
    assert_eq!(tempo.interval_ms(), 500);
    assert_eq!(tempo.bpm(), 120);
    let tempo = tap_tempo.record_tap(1_200 * MS).unwrap();
    assert_eq!(tempo.interval_ms(), 400);
    assert_eq!(tempo.bpm(), 150);
}

#[test]
fn mean_interval_rounds_down_twice() {
    let mut tap_tempo = TapTempo::new(5, 5);
    tap_tempo.record_tap(0);
    tap_tempo.record_tap(1);
    tap_tempo.record_tap(2);
    // 2_000_001 ns over three gaps is 666_667 ns, which is under a millisecond.
    assert_eq!(tap_tempo.record_tap(2_000_001), None);
    // 3_999_999 ns over four gaps is 999_999 ns: still under a millisecond.
    assert_eq!(tap_tempo.record_tap(3_999_999), None);
    let mut tap_tempo = TapTempo::new(5, 5);
    tap_tempo.record_tap(0);
    let tempo = tap_tempo.record_tap(1_999_999).unwrap();
    assert_eq!(tempo.interval_ms(), 1);
    assert_eq!(tempo.bpm(), 60_000);
}

#[test]
fn taps_at_one_instant_give_no_tempo() {
    let mut tap_tempo = TapTempo::new(5, 5);
    assert_eq!(tap_tempo.record_tap(42 * MS), None);
    assert_eq!(tap_tempo.record_tap(42 * MS), None);
    assert_eq!(tap_tempo.record_tap(42 * MS), None);
    assert_eq!(tap_tempo.history(), vec![42 * MS, 42 * MS, 42 * MS]);
}

#[test]
fn interval_under_a_millisecond_gives_no_tempo() {
    let mut tap_tempo = TapTempo::new(5, 5);
    tap_tempo.record_tap(0);
    assert_eq!(tap_tempo.record_tap(999_999), None);
    let mut tap_tempo = TapTempo::new(5, 5);
    tap_tempo.record_tap(0);
    assert_eq!(tap_tempo.record_tap(1_000_000).unwrap().interval_ms(), 1);
}

#[test]
fn pause_of_exactly_the_timeout_keeps_the_session() {
    let mut tap_tempo = TapTempo::new(5, 5);
    tap_tempo.record_tap(10 * SEC);
    let tempo = tap_tempo.record_tap(15 * SEC).unwrap();
    assert_eq!(tempo.interval_ms(), 5_000);
    assert_eq!(tempo.bpm(), 12);
    assert_eq!(tap_tempo.history(), vec![15 * SEC, 10 * SEC]);
}

#[test]
fn pause_over_the_timeout_starts_anew() {
    let mut tap_tempo = TapTempo::new(5, 5);
    tap_tempo.record_tap(10 * SEC);
    tap_tempo.record_tap(10 * SEC + 500 * MS);
    assert_eq!(tap_tempo.record_tap(15 * SEC + 500 * MS + 1), None);
    assert_eq!(tap_tempo.history(), vec![15 * SEC + 500 * MS + 1]);
}

#[test]
fn tempo_after_a_pause_comes_from_the_new_session_only() {
    let mut tap_tempo = TapTempo::new(5, 5);
    tap_tempo.record_tap(0);
    assert_eq!(tap_tempo.record_tap(250 * MS).unwrap().bpm(), 240);
    assert_eq!(tap_tempo.record_tap(7 * SEC), None);
    assert_eq!(tap_tempo.history(), vec![7 * SEC]);
    let tempo = tap_tempo.record_tap(7 * SEC + 500 * MS).unwrap();
    assert_eq!(tempo.interval_ms(), 500);
    assert_eq!(tap_tempo.history(), vec![7 * SEC + 500 * MS, 7 * SEC]);
}

#[test]
fn zero_timeout_resets_on_every_later_tap() {
    let mut tap_tempo = TapTempo::new(5, 0);
    assert_eq!(tap_tempo.record_tap(0), None);
    assert_eq!(tap_tempo.record_tap(0), None);
    assert_eq!(tap_tempo.history(), vec![0, 0]);
    assert_eq!(tap_tempo.record_tap(1), None);
    assert_eq!(tap_tempo.history(), vec![1]);
    assert_eq!(tap_tempo.record_tap(500 * MS), None);
    assert_eq!(tap_tempo.history(), vec![500 * MS]);
}

#[test]
fn history_never_exceeds_sample_size() {
    for sample_size in 0..7 {
        let mut tap_tempo = TapTempo::new(sample_size, 5);
        assert!(tap_tempo.history().is_empty());
        for tap in 0..40u128 {
            let now = tap * tap * 37 * MS;
            tap_tempo.record_tap(now);
            let history = tap_tempo.history();
            assert!(history.len() <= sample_size);
            if sample_size > 0 {
                assert_eq!(history[0], now);
            }
        }
    }
}

#[test]
fn history_holds_the_latest_taps_newest_first() {
    let mut tap_tempo = TapTempo::new(3, 5);
    let taps = [0, 100 * MS, 300 * MS, 600 * MS, 1_000 * MS, 1_500 * MS];
    for now in taps {
        tap_tempo.record_tap(now);
    }
    assert_eq!(tap_tempo.history(), vec![1_500 * MS, 1_000 * MS, 600 * MS]);
}

#[test]
fn tap_is_measured_with_the_taps_retained_before_it() {
    let taps = [0, 100 * MS, 300 * MS, 600 * MS, 1_000 * MS, 1_500 * MS];
    let mut tap_tempo = TapTempo::new(3, 5);
    let mut tempo = None;
    for now in taps {
        tempo = tap_tempo.record_tap(now);
    }
    // The last tap and the three retained before it: (1500 ms - 300 ms)
    // over three gaps.
    let tempo = tempo.unwrap();
    assert_eq!(tempo.interval_ms(), 400);
    assert_eq!(tempo.bpm(), 150);
    assert_eq!(beats_per_minute(tempo), 150.0);
    assert_eq!(tap_tempo.history(), vec![1_500 * MS, 1_000 * MS, 600 * MS]);
}

#[test]
fn only_the_latest_sample_size_taps_are_retained() {
    let taps = [0, 100 * MS, 300 * MS, 600 * MS, 1_000 * MS, 1_500 * MS];
    let mut tap_tempo = TapTempo::new(3, 5);
    for now in taps {
        tap_tempo.record_tap(now);
    }
    let mut latest_only = TapTempo::new(3, 5);
    for now in &taps[3..] {
        latest_only.record_tap(*now);
    }
    assert_eq!(tap_tempo.history(), latest_only.history());
    // What follows is measured with those three alone.
    let tempo = tap_tempo.record_tap(2_100 * MS);
    assert_eq!(tempo, latest_only.record_tap(2_100 * MS));
    let tempo = tempo.unwrap();
    assert_eq!(tempo.interval_ms(), 500);
    let direct = 60_000.0 / ((2_100.0 - 600.0) / 3.0);
    assert!((beats_per_minute(tempo) - direct).abs() < 1e-9);
}

#[test]
fn earlier_sessions_leave_no_trace() {
    let mut tap_tempo = TapTempo::new(3, 5);
    for now in [0, 40 * MS, 90 * MS, 10 * SEC, 10 * SEC + 10 * MS] {
        tap_tempo.record_tap(now);
    }
    let mut other = TapTempo::new(3, 5);
    other.record_tap(33 * SEC);
    for now in [50 * SEC, 50 * SEC + 700 * MS, 51 * SEC] {
        assert_eq!(tap_tempo.record_tap(now), other.record_tap(now));
    }
    assert_eq!(tap_tempo.history(), other.history());
    assert_eq!(tap_tempo.history(), vec![51 * SEC, 50 * SEC + 700 * MS, 50 * SEC]);
}

#[test]
fn steady_taps_give_their_tempo() {
    for sample_size in 1..8 {
        for interval_ms in [1u128, 250, 500, 731, 5_000] {
            let mut tap_tempo = TapTempo::new(sample_size, 5);
            let start = 11 * SEC;
            assert_eq!(tap_tempo.record_tap(start), None);
            for tap in 1..20u128 {
                let tempo = tap_tempo.record_tap(start + tap * interval_ms * MS).unwrap();
                assert_eq!(tempo.interval_ms(), interval_ms);
                assert_eq!(u128::from(tempo.bpm()), 60_000 / interval_ms);
                let expected = 60_000.0 / interval_ms as f64;
                assert!((beats_per_minute(tempo) - expected).abs() < 1e-9);
            }
        }
    }
}

#[test]
fn steady_taps_slower_than_the_timeout_give_no_tempo() {
    let mut tap_tempo = TapTempo::new(5, 1);
    for tap in 0..10u128 {
        assert_eq!(tap_tempo.record_tap(tap * 2 * SEC), None);
        assert_eq!(tap_tempo.history().len(), 1);
    }
}

#[test]
fn sample_size_of_one_measures_the_latest_gap() {
    let mut tap_tempo = TapTempo::new(1, 5);
    assert_eq!(tap_tempo.record_tap(0), None);
    assert_eq!(tap_tempo.record_tap(500 * MS).unwrap().interval_ms(), 500);
    assert_eq!(tap_tempo.record_tap(750 * MS).unwrap().interval_ms(), 250);
    assert_eq!(tap_tempo.record_tap(1_750 * MS).unwrap().interval_ms(), 1_000);
    assert_eq!(tap_tempo.history(), vec![1_750 * MS]);
}

#[test]
fn sample_size_of_zero_retains_nothing() {
    let mut tap_tempo = TapTempo::new(0, 5);
    for tap in 0..10u128 {
        assert_eq!(tap_tempo.record_tap(tap * 500 * MS), None);
        assert!(tap_tempo.history().is_empty());
    }
}

#[test]
fn tap_earlier_than_the_newest_counts_as_no_time_passed() {
    let mut tap_tempo = TapTempo::new(5, 1);
    tap_tempo.record_tap(10 * SEC);
    // Eight seconds back: no pause, so the session goes on, and no tempo,
    // since the newest time is not after the oldest.
    assert_eq!(tap_tempo.record_tap(2 * SEC), None);
    assert_eq!(tap_tempo.history(), vec![2 * SEC, 10 * SEC]);
}

#[test]
fn largest_times_do_not_overflow() {
    let longest = usize::MAX as u128 * SEC;
    let mut tap_tempo = TapTempo::new(2, usize::MAX);
    assert_eq!(tap_tempo.record_tap(0), None);
    let tempo = tap_tempo.record_tap(longest).unwrap();
    assert_eq!(tempo.interval_ms(), usize::MAX as u128 * 1_000);
    assert_eq!(tempo.bpm(), 0);
    assert_eq!(tap_tempo.record_tap(u128::MAX), None);
    assert_eq!(tap_tempo.history(), vec![u128::MAX]);
    let mut tap_tempo = TapTempo::new(2, usize::MAX);
    assert_eq!(tap_tempo.record_tap(u128::MAX - longest), None);
    let tempo = tap_tempo.record_tap(u128::MAX).unwrap();
    assert_eq!(tempo.interval_ms(), usize::MAX as u128 * 1_000);
}

#[test]
fn whole_bpm_rounds_down() {
    let mut tap_tempo = TapTempo::new(1, 120);
    tap_tempo.record_tap(0);
    assert_eq!(tap_tempo.record_tap(60_000 * MS).unwrap().bpm(), 1);
    assert_eq!(tap_tempo.record_tap(120_001 * MS).unwrap().bpm(), 0);
    let mut tap_tempo = TapTempo::new(2, 120);
    tap_tempo.record_tap(0);
    assert_eq!(tap_tempo.record_tap(7 * MS).unwrap().bpm(), 8_571);
}

#[test]
fn clock_taps_are_retained_in_order() {
    let mut tap_tempo = TapTempo::new(3, 5);
    assert_eq!(tap_tempo.tap(), None);
    assert_eq!(tap_tempo.history().len(), 1);
    tap_tempo.tap();
    tap_tempo.tap();
    tap_tempo.tap();
    let history = tap_tempo.history();
    assert_eq!(history.len(), 3);
    assert!(history[0] >= history[1] && history[1] >= history[2]);
}

#[test]
fn steady_taps_prevail_over_what_came_before() {
    for sample_size in 1..6usize {
        let mut tap_tempo = TapTempo::new(sample_size, 5);
        for now in [0, 130 * MS, 170 * MS, 900 * MS, 1_000 * MS, 1_900 * MS] {
            tap_tempo.record_tap(now);
        }
        let start = 2 * SEC;
        let mut tempo = None;
        for tap in 0..=sample_size as u128 {
            tempo = tap_tempo.record_tap(start + tap * 400 * MS);
        }
        let tempo = tempo.unwrap();
        assert_eq!(tempo.interval_ms(), 400);
        assert_eq!(tempo.bpm(), 150);
    }
}

#[test]
fn taps_in_order_are_retained_newest_first() {
    let mut tap_tempo = TapTempo::new(4, 1);
    let taps = [5, 5, 900 * MS, 901 * MS, 3 * SEC, 3 * SEC, 3 * SEC + 1, 4 * SEC, 9 * SEC];
    for now in taps {
        tap_tempo.record_tap(now);
        let history = tap_tempo.history();
        assert_eq!(history[0], now);
        for pair in history.windows(2) {
            assert!(pair[0] >= pair[1]);
        }
        if history.len() >= 2 {
            assert!(history[0] - history[1] <= SEC);
        }
    }
    assert_eq!(tap_tempo.history(), vec![9 * SEC]);
}
