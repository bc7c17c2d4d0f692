use expgstracker::demo::example_song_and_project;
use expgstracker::render::{draw_ui_text, format_note_cell};
use expgstracker::playback::Tracker;
use expgstracker::song::{Note, Pattern, Row, Song};
use expgstracker::text::highlight;
use expgstracker::ui::{handle_key, key_within_bounds, CursorRegion, Key, UiState};

fn demo() -> (Song, UiState) {
    let (song, project) = example_song_and_project();
    (song, UiState::new(project))
}

fn note(pitch: Option<u8>) -> Note {
    Note { pitch, volume: 50, stop: false }
}

#[test]
fn empty_and_stop_notes() {
    assert_eq!(Note::empty(), Note { pitch: None, volume: 0, stop: false });
    assert_eq!(Note::stop(), Note { pitch: None, volume: 0, stop: true });
}

#[test]
fn note_cells_are_drawn() {
    assert_eq!(format_note_cell(&note(Some(60))), "C4 C01");
    assert_eq!(format_note_cell(&note(Some(34))), "A#1C01");
    assert_eq!(format_note_cell(&note(Some(0))), "C-1C01");
    assert_eq!(format_note_cell(&note(Some(132))), "C10C01");
    assert_eq!(format_note_cell(&note(None)), "......");
    assert_eq!(format_note_cell(&Note::stop()), "======");
    assert_eq!(format_note_cell(&note(Some(71))), "B4 C01");
}

#[test]
fn long_pitches_are_cut_to_six_character_cells() {
    assert_eq!(format_note_cell(&note(Some(1))), "C#-C01");
    assert_eq!(format_note_cell(&note(Some(133))), "C#1C01");
    assert_eq!(format_note_cell(&note(Some(255))), "D#2C01");
    for p in 0..=255u8 {
        assert_eq!(format_note_cell(&note(Some(p))).chars().count(), 6);
    }
}

#[test]
fn demo_song_contents() {
    let (song, project) = example_song_and_project();
    assert_eq!(song.patterns.len(), 1);
    assert_eq!(song.patterns[0].rows.len(), 8);
    assert_eq!(song.order, vec![0; 8]);
    assert_eq!(song.bpm, 125);
    assert_eq!(song.speed, 6);
    assert_eq!(song.patterns[0].rows[3].channels[2], Note { pitch: Some(67), volume: 80, stop: false });
    assert_eq!(song.patterns[0].rows[5].channels, vec![Note::empty(); 3]);
    assert_eq!(project.name, "DemoProject");
    assert_eq!(project.author, "Jonas");
    assert_eq!(project.track_names[7], "TRK8  ");
    assert_eq!(project.autostep, 1);
    assert_eq!(project.ppq, 96);
    assert!(song.is_playable());
}

#[test]
fn fresh_editor_state() {
    let (_, ui) = demo();
    assert_eq!(ui.cursor.region, CursorRegion::Pattern);
    assert_eq!((ui.cursor.row, ui.cursor.col, ui.cursor.row_start), (0, 0, 0));
    assert_eq!(ui.current_pattern_index, 0);
    assert!(!ui.show_cmd);
    assert_eq!(ui.cmd_buffer, "");
    assert_eq!(ui.current_sample_name, "SQUARE1");
    assert!(!ui.is_playing);
}

#[test]
fn space_starts_and_stops_playback() {
    let (mut song, mut ui) = demo();
    assert!(handle_key(&mut song, &mut ui, Key::Char(' ')));
    assert!(ui.is_playing);
    assert!(handle_key(&mut song, &mut ui, Key::Char(' ')));
    assert!(!ui.is_playing);
}

#[test]
fn bottom_row_keys_enter_notes() {
    let (mut song, mut ui) = demo();
    // Row 0, channel 0 holds C4 at 80 percent; `b` changes only its pitch.
    assert!(handle_key(&mut song, &mut ui, Key::Char('b')));
    assert_eq!(song.patterns[0].rows[0].channels[0], Note { pitch: Some(67), volume: 80, stop: false });
    for (c, p) in [('z', 60), ('x', 62), ('c', 64), ('v', 65), ('n', 69), ('m', 71)] {
        handle_key(&mut song, &mut ui, Key::Char(c));
        assert_eq!(song.patterns[0].rows[0].channels[0].pitch, Some(p));
    }
}

#[test]
fn zero_stops_and_dash_clears() {
    let (mut song, mut ui) = demo();
    handle_key(&mut song, &mut ui, Key::Char('0'));
    assert_eq!(song.patterns[0].rows[0].channels[0], Note::stop());
    handle_key(&mut song, &mut ui, Key::Char('-'));
    assert_eq!(song.patterns[0].rows[0].channels[0], Note::empty());
}

#[test]
fn note_entry_clamps_to_the_row() {
    let (mut song, mut ui) = demo();
    ui.cursor.col = 6;
    handle_key(&mut song, &mut ui, Key::Char('z'));
    // Three channels: the last one takes the note; an empty cell keeps volume 0.
    assert_eq!(song.patterns[0].rows[0].channels[2], Note { pitch: Some(60), volume: 80, stop: false });
    ui.cursor.row = 5;
    handle_key(&mut song, &mut ui, Key::Char('x'));
    assert_eq!(song.patterns[0].rows[5].channels[2], Note { pitch: Some(62), volume: 0, stop: false });
}

#[test]
fn note_entry_fills_an_empty_row() {
    let mut song = Song {
        patterns: vec![Pattern { rows: vec![Row { channels: vec![] }] }],
        order: vec![0],
        bpm: 120,
        speed: 4,
    };
    let (_, mut ui) = demo();
    ui.cursor.col = 3;
    assert!(handle_key(&mut song, &mut ui, Key::Char('q')));
    assert_eq!(song.patterns[0].rows[0].channels, vec![Note::empty(); 8]);
    handle_key(&mut song, &mut ui, Key::Char('c'));
    assert_eq!(song.patterns[0].rows[0].channels[3].pitch, Some(64));
}

#[test]
fn other_characters_outside_the_pattern_change_nothing() {
    let (mut song, mut ui) = demo();
    ui.cursor.region = CursorRegion::SideInfo;
    assert!(!handle_key(&mut song, &mut ui, Key::Char('z')));
    assert_eq!(song.patterns[0].rows[0].channels[0].pitch, Some(60));
    ui.current_pattern_index = 3;
    ui.cursor.region = CursorRegion::Pattern;
    assert!(!handle_key(&mut song, &mut ui, Key::Char('z')));
}

#[test]
fn function_keys_jump() {
    let (mut song, mut ui) = demo();
    ui.cursor.row = 3;
    ui.cursor.col = 2;
    assert!(handle_key(&mut song, &mut ui, Key::F(1)));
    assert_eq!(ui.cursor.region, CursorRegion::Sequencer);
    assert_eq!((ui.cursor.row, ui.cursor.col), (0, 0));
    ui.cursor.col = 4;
    assert!(handle_key(&mut song, &mut ui, Key::F(2)));
    assert_eq!(ui.cursor.region, CursorRegion::SideInfo);
    assert_eq!((ui.cursor.row, ui.cursor.col), (0, 0));
    assert!(!handle_key(&mut song, &mut ui, Key::F(3)));
}

#[test]
fn letter_keys_switch_regions() {
    let (mut song, mut ui) = demo();
    ui.cursor.row = 2;
    assert!(handle_key(&mut song, &mut ui, Key::Char('i')));
    assert_eq!(ui.cursor.region, CursorRegion::SideInfo);
    assert_eq!(ui.cursor.row, 2);
    assert!(handle_key(&mut song, &mut ui, Key::Char('p')));
    assert_eq!(ui.cursor.region, CursorRegion::Pattern);
    assert!(handle_key(&mut song, &mut ui, Key::Char('s')));
    assert_eq!(ui.cursor.region, CursorRegion::Sequencer);
    assert_eq!(ui.cursor.row, 0);
}

#[test]
fn command_line_typing() {
    let (mut song, mut ui) = demo();
    assert!(handle_key(&mut song, &mut ui, Key::Char('`')));
    assert!(ui.show_cmd);
    assert_eq!(ui.cursor.region, CursorRegion::Command);
    for c in "bpm 90".chars() {
        assert!(handle_key(&mut song, &mut ui, Key::Char(c)));
    }
    assert_eq!(ui.cmd_buffer, "bpm 90");
    assert!(handle_key(&mut song, &mut ui, Key::Backspace));
    assert_eq!(ui.cmd_buffer, "bpm 9");
    assert!(!handle_key(&mut song, &mut ui, Key::Up));
    assert!(handle_key(&mut song, &mut ui, Key::Esc));
    assert!(!ui.show_cmd);
    assert_eq!(ui.cmd_buffer, "");
    assert_eq!(ui.cursor.region, CursorRegion::Pattern);
}

#[test]
fn backspace_on_an_empty_command_line() {
    let (mut song, mut ui) = demo();
    handle_key(&mut song, &mut ui, Key::Char('`'));
    assert!(handle_key(&mut song, &mut ui, Key::Backspace));
    assert_eq!(ui.cmd_buffer, "");
    assert!(handle_key(&mut song, &mut ui, Key::Enter));
    assert!(!ui.show_cmd);
}

#[test]
fn enter_opens_the_command_line_in_every_region() {
    let (mut song, mut ui) = demo();
    ui.cmd_buffer = String::from("old");
    assert!(handle_key(&mut song, &mut ui, Key::Enter));
    assert!(ui.show_cmd);
    assert_eq!(ui.cmd_buffer, "");
    assert_eq!(ui.cursor.region, CursorRegion::Command);
    handle_key(&mut song, &mut ui, Key::Esc);
    handle_key(&mut song, &mut ui, Key::F(2));
    assert!(handle_key(&mut song, &mut ui, Key::Enter));
    assert!(ui.show_cmd);
    assert_eq!(ui.cursor.region, CursorRegion::Command);
    handle_key(&mut song, &mut ui, Key::Esc);
    handle_key(&mut song, &mut ui, Key::F(1));
    assert!(handle_key(&mut song, &mut ui, Key::Enter));
    assert!(ui.show_cmd);
}

#[test]
fn left_and_right_move_the_column() {
    let (mut song, mut ui) = demo();
    assert!(!handle_key(&mut song, &mut ui, Key::Left));
    assert!(handle_key(&mut song, &mut ui, Key::Right));
    assert_eq!(ui.cursor.col, 1);
    assert!(handle_key(&mut song, &mut ui, Key::Left));
    assert_eq!(ui.cursor.col, 0);
    ui.cursor.region = CursorRegion::SideInfo;
    assert!(!handle_key(&mut song, &mut ui, Key::Right));
    assert_eq!(ui.cursor.col, 0);
}

#[test]
fn up_and_down_move_the_row() {
    let (mut song, mut ui) = demo();
    assert!(!handle_key(&mut song, &mut ui, Key::Up));
    for expected in 1..8 {
        assert!(handle_key(&mut song, &mut ui, Key::Down));
        assert_eq!(ui.cursor.row, expected);
    }
    // The demonstration pattern has eight rows: the cursor stops at the last.
    assert!(handle_key(&mut song, &mut ui, Key::Down));
    assert_eq!((ui.cursor.row, ui.cursor.row_start), (7, 0));
    assert!(handle_key(&mut song, &mut ui, Key::Up));
    assert_eq!(ui.cursor.row, 6);
}

#[test]
fn down_scrolls_a_long_pattern() {
    let rows = vec![Row { channels: vec![Note::empty(); 3] }; 10];
    let mut song = Song { patterns: vec![Pattern { rows }], order: vec![0], bpm: 120, speed: 6 };
    let (_, mut ui) = demo();
    for _ in 0..7 {
        handle_key(&mut song, &mut ui, Key::Down);
    }
    assert_eq!((ui.cursor.row, ui.cursor.row_start), (7, 0));
    handle_key(&mut song, &mut ui, Key::Down);
    assert_eq!((ui.cursor.row, ui.cursor.row_start), (8, 1));
    handle_key(&mut song, &mut ui, Key::Down);
    assert_eq!((ui.cursor.row, ui.cursor.row_start), (9, 2));
    handle_key(&mut song, &mut ui, Key::Down);
    assert_eq!((ui.cursor.row, ui.cursor.row_start), (9, 2));
}

#[test]
fn keys_out_of_bounds_are_recognised() {
    let (song, mut ui) = demo();
    assert!(key_within_bounds(&song, &ui, Key::Down));
    ui.cursor.col = usize::MAX;
    assert!(!key_within_bounds(&song, &ui, Key::Right));
    ui.current_pattern_index = 2;
    assert!(!key_within_bounds(&song, &ui, Key::Down));
    assert!(key_within_bounds(&song, &ui, Key::Char('z')));
    let empty = Song { patterns: vec![Pattern { rows: vec![] }], order: vec![0], bpm: 1, speed: 1 };
    ui.current_pattern_index = 0;
    assert!(!key_within_bounds(&empty, &ui, Key::Char('z')));
    assert!(key_within_bounds(&empty, &ui, Key::Char(' ')));
}

#[test]
fn highlight_wraps_in_brackets() {
    assert_eq!(highlight("C4 C01"), "[C4 C01]");
    assert_eq!(highlight(""), "[]");
}

fn expected_demo_screen(highlighted_cell: &str) -> String {
    let mut s = String::from("\x1B[2J\x1B[HDemoProject - Jonas - EXPGSTracker\n");
    s.push_str("[1][1][1][1][1][1][1][1] |Pattern: 1\n");
    s.push_str("--------------------------------------------------------------------\n");
    s.push_str("TRACK1|TRACK2|TRACK3|TRACK4|TRACK5|TRACK6|TRACK7|TRACK8|INFO:\n");
    let rows = [
        ["C4 C01", "......", "......"],
        ["......", "E4 C01", "......"],
        ["......", "......", "G4 C01"],
        ["C4 C01", "E4 C01", "G4 C01"],
    ];
    let side = [" Sample: SQUARE1\n", " Autostep: 1\n", " PPQ: 96\n", " BPM: 125\n"];
    for r in 0..8 {
        for ch in 0..9 {
            let cell = if r < 4 && ch < 3 { rows[r][ch] } else { "......" };
            if r == 0 && ch == 0 {
                s.push_str(highlighted_cell);
            } else {
                s.push_str(cell);
            }
        }
        if r < 4 {
            s.push_str(side[r]);
        } else {
            s.push('\n');
        }
    }
    s.push_str("Order: 0 Row: 0 Tick: 0 | Playing: No\n");
    s
}

#[test]
fn demo_screen_is_drawn() {
    let (song, ui) = demo();
    let tracker = Tracker::new(song.clone(), 3);
    let screen = draw_ui_text(&song, &ui, &tracker);
    assert_eq!(screen, expected_demo_screen("[C4 C01]"));
}

#[test]
fn screen_shows_arrows_side_highlight_and_command_line() {
    let rows = vec![Row { channels: vec![Note::empty(); 3] }; 10];
    let song = Song { patterns: vec![Pattern { rows }], order: vec![0, 0], bpm: 90, speed: 6 };
    let (_, mut ui) = demo();
    ui.cursor.row_start = 1;
    ui.cursor.region = CursorRegion::SideInfo;
    ui.cursor.row = 2;
    ui.show_cmd = true;
    ui.cmd_buffer = String::from("hi");
    let tracker = Tracker::new(song.clone(), 3);
    let screen = draw_ui_text(&song, &ui, &tracker);
    assert!(screen.contains("INFO:\n^^^^\n"));
    assert!(screen.contains("\\/\\/\\/\nOrder: 0 Row: 0 Tick: 0 | Playing: No\nCMD: hi"));
    assert!(screen.ends_with("CMD: hi"));
    assert!(screen.contains(" Autostep: 1\n"));
    assert!(screen.contains("[PPQ:] 96\n"));
    assert!(!screen.contains(" PPQ:"));
    assert!(screen.contains(" BPM: 90\n"));
    assert_eq!(screen.matches('\n').count(), 4 + 1 + 8 + 2);
}

#[test]
fn order_label_under_the_cursor_is_bracketed() {
    let (song, mut ui) = demo();
    ui.cursor.region = CursorRegion::Sequencer;
    ui.cursor.col = 1;
    let tracker = Tracker::new(song.clone(), 3);
    let screen = draw_ui_text(&song, &ui, &tracker);
    assert!(screen.contains("\n[1][[1]][1][1][1][1][1][1] |Pattern: 1\n"));
    assert!(!screen.contains("[C4 C01]"));
}
