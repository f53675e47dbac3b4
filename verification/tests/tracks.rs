use euphony::player::tracks::{carry_over, select_next, select_previous, TrackFlags, Tracks};

#[test]
fn mute_and_solo() {
    let mut tracks = Tracks::new(3);
    assert_eq!(tracks.audible(), vec![true, true, true]);
    tracks.mute(1);
    assert_eq!(tracks.audible(), vec![true, false, true]);
    assert!(tracks.take_needs_update());
    assert!(!tracks.take_needs_update());
    tracks.solo(2);
    assert_eq!(tracks.audible(), vec![false, false, true]);
    tracks.solo(1);
    // a soloed track that is muted stays silent
    assert_eq!(tracks.audible(), vec![false, false, true]);
    tracks.mute(1);
    assert_eq!(tracks.audible(), vec![false, true, true]);
    tracks.mute(7);
    assert_eq!(tracks.len(), 3);
    tracks.solo_all();
    assert_eq!(tracks.flags()[0], TrackFlags { mute: false, solo: true });
    tracks.mute_all();
    assert_eq!(tracks.audible(), vec![false, false, false]);
}

#[test]
fn table_selection() {
    assert_eq!(select_next(Some(0), 3), 1);
    assert_eq!(select_next(Some(2), 3), 0);
    assert_eq!(select_next(None, 3), 0);
    assert_eq!(select_previous(Some(0), 3), 2);
    assert_eq!(select_previous(Some(2), 3), 1);
    assert_eq!(select_previous(None, 0), 0);
}

#[test]
fn mute_twice_restores() {
    let mut tracks = Tracks::new(2);
    tracks.solo(0);
    let before = tracks.flags().clone();
    tracks.mute(0);
    tracks.mute(0);
    assert_eq!(tracks.flags(), &before);
}

#[test]
fn selection_moves_back() {
    for len in 1..5usize {
        for i in 0..len {
            assert_eq!(select_previous(Some(select_next(Some(i), len)), len), i);
            assert_eq!(select_next(Some(select_previous(Some(i), len)), len), i);
        }
    }
}

#[test]
fn carry_over_test() {
    let muted = TrackFlags { mute: true, solo: false };
    let soloed = TrackFlags { mute: false, solo: true };
    let none = TrackFlags { mute: false, solo: false };
    let old_names = vec!["bass".to_string(), "drums".to_string()];
    let old_flags = vec![muted, soloed];
    let names = vec!["drums".to_string(), "lead".to_string(), "bass".to_string()];
    let tracks = carry_over(&old_names, &old_flags, &names);
    assert_eq!(tracks.flags(), &vec![soloed, none, muted]);
}
