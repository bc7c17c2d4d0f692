use expgstracker::demo::example_song_and_project;
use expgstracker::playback::{ChannelState, Tracker};
use expgstracker::song::{Note, Pattern, Row, Song};
use expgstracker::session::{on_key_press, KeyOutcome};
use expgstracker::ui::{handle_key, Key, UiState};

fn n(pitch: u8, volume: u8) -> Note {
    Note { pitch: Some(pitch), volume, stop: false }
}

fn two_pattern_song() -> Song {
    let a = Pattern {
        rows: vec![
            Row { channels: vec![n(60, 50), n(64, 40)] },
            Row { channels: vec![Note::stop(), Note::empty()] },
        ],
    };
    let b = Pattern { rows: vec![Row { channels: vec![Note::empty(), n(70, 90), n(72, 10)] }] };
    Song { patterns: vec![a, b], order: vec![0, 1], bpm: 120, speed: 2 }
}

#[test]
fn channel_trigger() {
    let mut ch = ChannelState::new();
    assert_eq!(ch, ChannelState { pitch: None, volume: 0 });
    ch.trigger(Note::empty());
    assert_eq!(ch, ChannelState { pitch: None, volume: 0 });
    ch.trigger(n(69, 80));
    assert_eq!(ch, ChannelState { pitch: Some(69), volume: 80 });
    ch.trigger(Note::stop());
    assert_eq!(ch, ChannelState { pitch: Some(69), volume: 80 });
}

#[test]
fn new_tracker_is_stopped_at_the_start() {
    let (song, _) = example_song_and_project();
    let t = Tracker::new(song, 3);
    assert_eq!((t.current_order, t.current_row, t.tick), (0, 0, 0));
    assert!(!t.is_playing);
    assert_eq!(t.channels, vec![ChannelState { pitch: None, volume: 0 }; 3]);
}

#[test]
fn stopped_tracker_does_not_tick() {
    let mut t = Tracker::new(two_pattern_song(), 2);
    t.advance_tick();
    t.advance_tick();
    assert_eq!((t.current_order, t.current_row, t.tick), (0, 0, 0));
}

#[test]
fn a_row_lasts_speed_ticks() {
    let (song, _) = example_song_and_project();
    let mut t = Tracker::new(song, 3);
    t.is_playing = true;
    for k in 1..6 {
        t.advance_tick();
        assert_eq!((t.current_row, t.tick), (0, k));
    }
    t.advance_tick();
    assert_eq!((t.current_row, t.tick), (1, 0));
    // Row 1 plays E4 on channel 1.
    assert_eq!(t.channels[1], ChannelState { pitch: Some(64), volume: 80 });
    assert_eq!(t.channels[0], ChannelState { pitch: None, volume: 0 });
}

#[test]
fn rows_wrap_into_the_next_pattern_and_the_order_wraps() {
    let mut t = Tracker::new(two_pattern_song(), 2);
    t.is_playing = true;
    t.advance_tick();
    t.advance_tick();
    // Row 1 of pattern 0: a stop on channel 0.
    assert_eq!((t.current_order, t.current_row), (0, 1));
    assert_eq!(t.channels[0], ChannelState { pitch: None, volume: 0 });
    t.advance_row();
    // Order position 1 is pattern 1: channel 1 takes 70; the note for a third
    // channel is dropped.
    assert_eq!((t.current_order, t.current_row), (1, 0));
    assert_eq!(t.channels, vec![ChannelState { pitch: None, volume: 0 }, ChannelState { pitch: Some(70), volume: 90 }]);
    t.advance_row();
    assert_eq!((t.current_order, t.current_row), (0, 0));
    assert_eq!(t.channels, vec![ChannelState { pitch: Some(60), volume: 50 }, ChannelState { pitch: Some(64), volume: 40 }]);
}

#[test]
fn speed_zero_advances_every_tick() {
    let mut song = two_pattern_song();
    song.speed = 0;
    let mut t = Tracker::new(song, 2);
    t.is_playing = true;
    t.advance_tick();
    assert_eq!((t.current_row, t.tick), (1, 0));
}

#[test]
fn playable_songs() {
    assert!(two_pattern_song().is_playable());
    let mut s = two_pattern_song();
    s.order.push(2);
    assert!(!s.is_playable());
    let mut s = two_pattern_song();
    s.order.clear();
    assert!(!s.is_playable());
    let mut s = two_pattern_song();
    s.patterns[1].rows.clear();
    assert!(!s.is_playable());
    // An empty pattern that the order never names does no harm.
    let mut s = two_pattern_song();
    s.patterns.push(Pattern { rows: vec![] });
    assert!(s.is_playable());
}

#[test]
fn editing_while_playing_keeps_the_clock_running() {
    let (song, project) = example_song_and_project();
    let mut t = Tracker::new(song, 3);
    let mut ui = UiState::new(project);
    t.is_playing = true;
    for _ in 0..7 {
        handle_key(&mut t.song, &mut ui, Key::Down);
    }
    handle_key(&mut t.song, &mut ui, Key::Char('m'));
    assert_eq!(t.song.patterns[0].rows[7].channels[0].pitch, Some(71));
    for _ in 0..(6 * 8) {
        t.advance_tick();
    }
    // One full pass over the eight rows: the next order entry, row 0.
    assert_eq!((t.current_order, t.current_row, t.tick), (1, 0, 0));
}

#[test]
fn key_presses_drive_playback() {
    let (song, project) = example_song_and_project();
    let mut t = Tracker::new(song, 3);
    let mut ui = UiState::new(project);
    assert_eq!(on_key_press(&mut t, &mut ui, Key::Char('q')), KeyOutcome::Quit);
    assert!(!t.is_playing);
    assert_eq!(on_key_press(&mut t, &mut ui, Key::Char(' ')), KeyOutcome::Handled(true));
    assert!(t.is_playing && ui.is_playing);
    assert_eq!(on_key_press(&mut t, &mut ui, Key::Left), KeyOutcome::Handled(false));
    assert_eq!(on_key_press(&mut t, &mut ui, Key::Char('x')), KeyOutcome::Handled(true));
    assert_eq!(t.song.patterns[0].rows[0].channels[0].pitch, Some(62));
    assert_eq!(on_key_press(&mut t, &mut ui, Key::Char(' ')), KeyOutcome::Handled(true));
    assert!(!t.is_playing && !ui.is_playing);
}

#[test]
fn a_stopped_tracker_ignores_ticks_whatever_its_place() {
    let mut t = Tracker::new(two_pattern_song(), 2);
    t.current_order = 9;
    t.tick = 40;
    t.advance_tick();
    assert_eq!((t.current_order, t.current_row, t.tick), (9, 0, 40));
}

#[test]
fn advance_row_ignores_the_tick_counter() {
    let mut t = Tracker::new(two_pattern_song(), 2);
    t.tick = 77;
    t.advance_row();
    assert_eq!((t.current_order, t.current_row, t.tick), (0, 1, 77));
}
