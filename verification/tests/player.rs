use core::time::Duration;
use euphony::player::timeline::{Controls, Update};

#[test]
fn update_builder() {
    let mut update = Update::new();
    update.playing(false).looping(true).volume(250).clip_start(None);
    assert_eq!(update.changes().playing, Some(false));
    assert_eq!(update.changes().looping, Some(true));
    assert_eq!(update.changes().volume, Some(100));
    assert_eq!(update.changes().clip_start, Some(None));
    assert_eq!(update.changes().clip_end, None);
    update.volume(30).set(Duration::from_secs(1)).clipped(true).clip_end(Some(Duration::from_millis(10)));
    assert_eq!(update.changes().volume, Some(30));
    assert_eq!(update.changes().set, Some(Duration::from_secs(1)));
    assert_eq!(update.changes().clipped, Some(true));
    assert_eq!(update.changes().clip_end, Some(Some(Duration::from_millis(10))));
}

#[test]
fn apply_update() {
    let mut controls = Controls::new();
    assert_eq!(controls.clip_start_position(), None);
    let mut update = Update::new();
    update.set(Duration::from_secs(2)).clip_start(Some(Duration::from_secs(1))).clip_end(None).volume(50);
    controls.apply(&update, |d: Duration| d.as_secs() as usize * 10);
    assert_eq!(controls.cursor, 20);
    assert_eq!(controls.clip_start_position(), Some(10));
    assert_eq!(controls.clip_end_position(), None);
    assert_eq!(controls.volume, 50);
    assert!(controls.playing);
}

#[test]
fn plays_through_then_stops() {
    let mut c = Controls::new();
    let played: Vec<Option<usize>> = (0..5).map(|_| c.next(3)).collect();
    assert_eq!(played, vec![Some(0), Some(1), Some(2), None, None]);
    assert!(!c.playing);
}

#[test]
fn loops_back_to_start() {
    let mut c = Controls::new();
    c.looping = true;
    let played: Vec<Option<usize>> = (0..7).map(|_| c.next(2)).collect();
    assert_eq!(played, vec![Some(0), Some(1), None, Some(0), Some(1), None, Some(0)]);
    assert!(c.playing);
}

#[test]
fn clip_plays_between_bounds() {
    let mut c = Controls::new();
    c.clipped = true;
    c.clip_start = 1;
    c.clip_end = 3;
    c.cursor = 1;
    let played: Vec<Option<usize>> = (0..4).map(|_| c.next(10)).collect();
    // at the end of the clip, a clipping playhead that does not loop stops
    // and goes back to the clip start
    assert_eq!(played, vec![Some(1), Some(2), None, None]);
    assert!(!c.playing);
    assert_eq!(c.cursor, 1);
}

#[test]
fn stopped_playhead_is_silent() {
    let mut c = Controls::new();
    c.playing = false;
    assert_eq!(c.next(10), None);
    assert_eq!(c, {
        let mut d = Controls::new();
        d.playing = false;
        d
    });
}
