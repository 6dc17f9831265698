use bevy::time::{Timer, TimerMode};
use cell_game::timer::{TimerReading, LONGEST_TIME};
use std::time::Duration;

fn reading(elapsed: u128, duration: u128, repeating: bool) -> TimerReading {
    TimerReading { elapsed, duration, repeating, paused: false, finished: false, times_finished: 0 }
}

fn timer(duration: u64, repeating: bool) -> Timer {
    let mode = if repeating { TimerMode::Repeating } else { TimerMode::Once };
    Timer::new(Duration::from_nanos(duration), mode)
}

#[test]
fn reading_shows_what_the_timer_holds() {
    let mut timer = timer(10, true);
    assert_eq!(TimerReading::of(&timer), reading(0, 10, true));
    timer.tick(Duration::from_nanos(34));
    assert_eq!(
        TimerReading::of(&timer),
        TimerReading { finished: true, times_finished: 3, ..reading(4, 10, true) }
    );
    timer.pause();
    assert_eq!(
        TimerReading::of(&timer),
        TimerReading { paused: true, finished: true, times_finished: 3, ..reading(4, 10, true) }
    );
    let once = Timer::new(Duration::new(3, 7), TimerMode::Once);
    assert_eq!(TimerReading::of(&once), reading(0, 3_000_000_007, false));
}

#[test]
fn one_shot_timer_stops_at_its_duration() {
    let start = reading(0, 10, false);
    let early = start.tick(4);
    assert_eq!(early, reading(4, 10, false));
    let done = early.tick(100);
    assert_eq!(done, TimerReading { finished: true, times_finished: 1, ..reading(10, 10, false) });
    let later = done.tick(5);
    assert_eq!(later, TimerReading { finished: true, times_finished: 0, ..reading(10, 10, false) });
    assert_eq!(
        reading(0, 0, false).tick(0),
        TimerReading { finished: true, times_finished: 1, ..reading(0, 0, false) }
    );
}

#[test]
fn repeating_timer_keeps_what_is_left_of_a_lap() {
    let start = reading(0, 10, true);
    assert_eq!(start.tick(9), reading(9, 10, true));
    assert_eq!(
        start.tick(9).tick(1),
        TimerReading { finished: true, times_finished: 1, ..reading(0, 10, true) }
    );
    assert_eq!(
        start.tick(47),
        TimerReading { finished: true, times_finished: 4, ..reading(7, 10, true) }
    );
    assert_eq!(start.tick(47).tick(2), reading(9, 10, true));
}

#[test]
fn laps_beyond_the_modulus_are_not_told_apart() {
    let laps = (1u64 << 32) + 3;
    assert_eq!(
        reading(0, 1, true).tick(laps),
        TimerReading { finished: true, times_finished: 3, ..reading(1 << 32, 1, true) }
    );
    assert_eq!(
        reading(0, 2, true).tick(1 << 33),
        TimerReading { finished: true, times_finished: 0, ..reading(1 << 33, 2, true) }
    );
}

#[test]
fn paused_timer_counts_nothing() {
    let paused = TimerReading { paused: true, finished: true, times_finished: 2, ..reading(3, 10, true) };
    assert_eq!(paused.tick(100), TimerReading { paused: true, ..reading(3, 10, true) });
    let paused = TimerReading { paused: true, finished: true, times_finished: 1, ..reading(10, 10, false) };
    assert_eq!(
        paused.tick(100),
        TimerReading { paused: true, finished: true, ..reading(10, 10, false) }
    );
    assert!(TimerReading { paused: true, ..reading(LONGEST_TIME, 0, true) }.can_tick(u64::MAX));
}

#[test]
fn timer_can_tick_up_to_the_longest_time() {
    assert_eq!(LONGEST_TIME, Duration::MAX.as_nanos());
    assert!(reading(LONGEST_TIME - 5, LONGEST_TIME, false).can_tick(5));
    assert!(!reading(LONGEST_TIME - 5, LONGEST_TIME, false).can_tick(6));
    assert!(reading(0, 10, true).can_tick(u64::MAX));
    assert!(!reading(0, 0, true).can_tick(0));
    assert!(reading(0, 0, false).can_tick(0));
    let done = TimerReading { finished: true, ..reading(LONGEST_TIME, LONGEST_TIME, false) };
    assert!(done.can_tick(u64::MAX));
    let lapped = TimerReading { finished: true, ..reading(LONGEST_TIME, LONGEST_TIME, true) };
    assert!(!lapped.can_tick(1));
    assert!(lapped.can_tick(0));
}

fn samples() -> Vec<Timer> {
    let mut timers = Vec::new();
    for repeating in [false, true] {
        for duration in [0u64, 1, 2, 7, 1_000_000_000, 2_000_000_000, u64::MAX] {
            for elapsed in [0u64, 1, 3, 7, 999_999_999, 2_000_000_001, u64::MAX] {
                for warm_up in [None, Some(0u64), Some(5)] {
                    for paused in [false, true] {
                        let mut sample = timer(duration, repeating);
                        if let Some(delta) = warm_up {
                            if TimerReading::of(&sample).can_tick(delta) {
                                sample.tick(Duration::from_nanos(delta));
                            }
                        }
                        sample.set_elapsed(Duration::from_nanos(elapsed));
                        if paused {
                            sample.pause();
                        }
                        timers.push(sample);
                    }
                }
            }
        }
    }
    timers
}

#[test]
fn engine_ticks_as_the_reading_does() {
    let deltas = [0u64, 1, 2, 6, 7, 13, 1_000_000_000, 1 << 33, (1 << 34) + 1, u64::MAX];
    let mut compared = 0;
    for sample in samples() {
        for delta in deltas {
            let before = TimerReading::of(&sample);
            if before.can_tick(delta) {
                let mut ticked = sample.clone();
                ticked.tick(Duration::from_nanos(delta));
                assert_eq!(TimerReading::of(&ticked), before.tick(delta));
                assert_eq!(ticked.finished(), before.tick(delta).finished);
                assert_eq!(ticked.just_finished(), before.tick(delta).times_finished > 0);
                compared += 1;
            }
        }
    }
    assert!(compared > 5000);
}

#[test]
fn engine_ticks_twice_as_the_reading_does() {
    for sample in samples() {
        for (first, second) in [(3u64, 4u64), (7, 7), (1 << 33, 1), (0, u64::MAX)] {
            let before = TimerReading::of(&sample);
            if before.can_tick(first) && before.tick(first).can_tick(second) {
                let mut ticked = sample.clone();
                ticked.tick(Duration::from_nanos(first));
                ticked.tick(Duration::from_nanos(second));
                assert_eq!(TimerReading::of(&ticked), before.tick(first).tick(second));
            }
        }
    }
}
