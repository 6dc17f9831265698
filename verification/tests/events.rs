use cell_game::components::{Direction, Enemy, Explosion, Lifespan, MainCamera, Virus, Wall};
use cell_game::events::{ExplodeEvent, Mailbox};
use cell_game::geometry::Vec2;
use std::time::Duration;

#[test]
fn mailbox_keeps_the_first_signal() {
    let mut mailbox = Mailbox::new();
    assert!(mailbox.is_empty());
    assert_eq!(mailbox.take(), None);
    mailbox.send(ExplodeEvent { translation: Vec2::new(1, 1) });
    mailbox.send(ExplodeEvent { translation: Vec2::new(2, 2) });
    assert!(!mailbox.is_empty());
    assert_eq!(mailbox.take(), Some(ExplodeEvent { translation: Vec2::new(1, 1) }));
    assert!(mailbox.is_empty());
    assert_eq!(mailbox.take(), None);
    mailbox.send(ExplodeEvent { translation: Vec2::new(3, 3) });
    assert_eq!(mailbox.take(), Some(ExplodeEvent { translation: Vec2::new(3, 3) }));
}

#[test]
fn new_timers_have_counted_nothing() {
    let enemy = Enemy::new(2_000_000_000);
    assert_eq!(enemy.0.duration(), Duration::from_secs(2));
    assert_eq!(enemy.0.elapsed(), Duration::ZERO);
    assert!(!enemy.0.finished());
    assert!(!enemy.0.paused());
    assert_eq!(enemy.0.times_finished_this_tick(), 0);
    let virus = Virus::new(5);
    assert_eq!(virus.0.duration(), Duration::from_nanos(5));
    assert!(!virus.0.finished());
    let explosion = Explosion::new(u64::MAX);
    assert_eq!(explosion.0.duration(), Duration::from_nanos(u64::MAX));
    assert!(!explosion.0.finished());
}

#[test]
fn enemy_repeats_and_the_others_do_not() {
    let mut enemy = Enemy::new(10);
    enemy.0.tick(Duration::from_nanos(25));
    assert_eq!(enemy.0.times_finished_this_tick(), 2);
    assert_eq!(enemy.0.elapsed(), Duration::from_nanos(5));
    let mut virus = Virus::new(10);
    virus.0.tick(Duration::from_nanos(25));
    assert_eq!(virus.0.times_finished_this_tick(), 1);
    assert_eq!(virus.0.elapsed(), Duration::from_nanos(10));
    let mut explosion = Explosion::new(10);
    explosion.0.tick(Duration::from_nanos(25));
    assert_eq!(explosion.0.elapsed(), Duration::from_nanos(10));
}

#[test]
fn markers_compare_equal() {
    assert_eq!(Wall, Wall);
    assert_eq!(MainCamera, MainCamera);
    assert_ne!(Direction::North, Direction::Nowhere);
    assert_ne!(Direction::East, Direction::West);
    assert_eq!(Direction::South, Direction::South);
    assert!(Lifespan(0).is_spent());
    assert!(Lifespan(-1).is_spent());
    assert!(!Lifespan(1).is_spent());
}
