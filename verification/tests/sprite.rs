use std::time::Duration;

use bevy::time::{Timer, TimerMode};
use bevy_parallaxium::sprite::SpriteFrameUpdate;

fn frames(index: usize, total: usize, secs: u64) -> SpriteFrameUpdate {
    SpriteFrameUpdate { index, total, timer: Timer::new(Duration::from_secs(secs), TimerMode::Repeating) }
}

#[test]
fn from_grid_counts_frames() {
    let update = SpriteFrameUpdate::from_grid(4, 3, 5, Duration::from_millis(100));
    assert_eq!(update.total, 12);
    assert_eq!(update.index, 5);
    assert_eq!(update.timer.duration(), Duration::from_millis(100));
    assert_eq!(update.timer.mode(), TimerMode::Repeating);
    assert_eq!(update.timer.elapsed(), Duration::ZERO);
}

#[test]
fn step_frame_moves_only_when_fired() {
    let mut update = frames(1, 3, 1);
    assert_eq!(update.step_frame(false), 1);
    assert_eq!(update.step_frame(true), 2);
    assert_eq!(update.step_frame(true), 0);
    assert_eq!(update.index, 0);
}

#[test]
fn next_index_waits_for_timer() {
    let mut update = frames(0, 4, 1);
    assert_eq!(update.next_index(Duration::from_millis(500)), 0);
    assert_eq!(update.next_index(Duration::from_millis(500)), 1);
    assert_eq!(update.next_index(Duration::from_millis(999)), 1);
    assert_eq!(update.next_index(Duration::from_millis(1)), 2);
}

#[test]
fn next_index_wraps_around() {
    let mut update = frames(2, 3, 1);
    assert_eq!(update.next_index(Duration::from_secs(1)), 0);
}

#[test]
fn frames_cycle_back_after_total_advances() {
    let mut update = frames(1, 5, 1);
    for _ in 0..5 {
        assert!(update.index < 5);
        update.next_index(Duration::from_secs(1));
    }
    assert_eq!(update.index, 1);
}

#[test]
fn advance_reports_new_frame() {
    let mut update = frames(3, 4, 2);
    assert_eq!(update.advance(Duration::from_secs(1)), None);
    assert_eq!(update.index, 3);
    assert_eq!(update.advance(Duration::from_secs(1)), Some(0));
    assert_eq!(update.index, 0);
}

#[test]
fn next_index_ticks_timer() {
    let mut update = frames(0, 4, 2);
    update.next_index(Duration::from_millis(1500));
    assert_eq!(update.timer.elapsed(), Duration::from_millis(1500));
    update.next_index(Duration::from_millis(1000));
    assert_eq!(update.timer.elapsed(), Duration::from_millis(500));
    assert_eq!(update.index, 1);
}

#[test]
fn next_index_without_firing_accepts_empty_animation() {
    let mut update = frames(0, 0, 1);
    assert_eq!(update.next_index(Duration::from_millis(10)), 0);
}

#[test]
fn checked_next_index_reports_impossible_step() {
    let mut update = frames(0, 0, 1);
    assert_eq!(update.checked_next_index(Duration::from_millis(10)), Some(0));
    assert_eq!(update.checked_next_index(Duration::from_secs(1)), None);
    assert_eq!(update.index, 0);
    let mut update = frames(usize::MAX, 3, 1);
    assert_eq!(update.checked_next_index(Duration::from_secs(1)), None);
    assert_eq!(update.index, usize::MAX);
    let mut update = frames(2, 3, 1);
    assert_eq!(update.checked_next_index(Duration::from_secs(1)), Some(0));
}

#[test]
fn checked_advance_reports_each_outcome() {
    let mut update = frames(1, 3, 1);
    assert_eq!(update.checked_advance(Duration::from_millis(400)), Some(None));
    assert_eq!(update.index, 1);
    assert_eq!(update.checked_advance(Duration::from_millis(600)), Some(Some(2)));
    assert_eq!(update.index, 2);
    let mut empty = frames(0, 0, 1);
    assert_eq!(empty.checked_advance(Duration::from_millis(400)), Some(None));
    assert_eq!(empty.checked_advance(Duration::from_millis(600)), None);
    assert_eq!(empty.index, 0);
}

#[test]
fn frames_paced_by_frame_duration() {
    let mut update = SpriteFrameUpdate::from_grid(2, 2, 0, Duration::from_millis(250));
    for expected in [1, 2, 3, 0, 1] {
        assert_eq!(update.next_index(Duration::from_millis(250)), expected);
        assert_eq!(update.timer.elapsed(), Duration::ZERO);
    }
    assert_eq!(update.next_index(Duration::from_millis(100)), 1);
    assert_eq!(update.next_index(Duration::from_millis(100)), 1);
    assert_eq!(update.next_index(Duration::from_millis(100)), 2);
    assert_eq!(update.timer.elapsed(), Duration::from_millis(50));
}

#[test]
fn paused_timer_keeps_frame() {
    let mut update = frames(0, 3, 1);
    update.timer.pause();
    assert_eq!(update.next_index(Duration::from_secs(5)), 0);
    assert_eq!(update.timer.elapsed(), Duration::ZERO);
}
