use expgstracker::console::{edit_samples, menu_command, menu_word, sample_word, MenuCommand, SampleCommand};
use expgstracker::console::{check_input, get_note_as_string, load, load_file, load_wav, master_edit};
use expgstracker::sequencer::{
    connect_key_event_to_function, get_data, get_program_name, get_quote, get_text_after,
    sequence_to_string, sequencer_screen_text, Globe, InputEvent, MouseKind, Pattern, SeqCursor,
    Sequence, MODE_MENU, MODE_SEQUENCER, MODE_TRACKER,
};
use expgstracker::text::trim_text;
use expgstracker::ui::Key;

fn sequence_of(n: usize) -> Sequence {
    let mut s = Sequence::new();
    for _ in 0..n {
        s.sequence.push(Pattern { pattern: vec![] });
    }
    s
}

#[test]
fn cursor_moves() {
    let mut c = SeqCursor::new();
    assert_eq!((c.cursor_row(), c.cursor_column()), (0, 0));
    c.cursor_up();
    c.cursor_left();
    assert_eq!(c.position, (0, 0));
    c.cursor_right();
    assert_eq!(c.position, (0, 0));
    for _ in 0..50 {
        c.cursor_down();
    }
    assert_eq!(c.cursor_row(), 42);
    c.cursor_up();
    assert_eq!(c.cursor_row(), 41);
    c.position.1 = 1;
    c.cursor_right();
    assert_eq!(c.cursor_column(), 43);
    c.cursor_left();
    assert_eq!(c.cursor_column(), 42);
}

#[test]
fn sequence_basics() {
    let s = sequence_of(3);
    assert_eq!(s.length(), 3);
    assert_eq!(s.get_pattern_number(7), 7);
    assert_eq!(Sequence::new().length(), 0);
}

#[test]
fn default_globe() {
    let g = Globe::new();
    assert_eq!(g.name(), "0w0");
    assert_eq!(g.author(), "Furro");
    assert_eq!(g.splash(), "non-human userbase");
    assert_eq!(g.title(), "EZGQRTracker");
    assert_eq!((g.track_begin(), g.track_end()), (0, 16));
    assert_eq!((g.cursor_row(), g.cursor_column()), (0, 0));
    assert_eq!(g.mode, MODE_MENU);
    assert_eq!(g.seq.length(), 0);
    assert_eq!(get_quote(), "non-human userbase");
    assert_eq!(get_program_name(), "EZGQRTracker");
}

#[test]
fn scrolling_the_window() {
    let mut g = Globe::new();
    g.move_up();
    assert_eq!((g.track_begin(), g.track_end()), (0, 16));
    g.seq = sequence_of(18);
    g.move_up();
    g.move_up();
    g.move_up();
    assert_eq!((g.track_begin(), g.track_end()), (2, 18));
    g.move_down();
    assert_eq!((g.track_begin(), g.track_end()), (1, 17));
    g.move_down();
    g.move_down();
    assert_eq!((g.track_begin(), g.track_end()), (0, 16));
}

#[test]
fn events_in_each_mode() {
    let mut g = Globe::new();
    g.seq = sequence_of(20);
    connect_key_event_to_function(InputEvent::Key(Key::Up), &mut g);
    connect_key_event_to_function(InputEvent::Mouse(MouseKind::ScrollUp), &mut g);
    assert_eq!(g.track_begin(), 2);
    connect_key_event_to_function(InputEvent::Key(Key::Down), &mut g);
    assert_eq!(g.track_begin(), 1);
    connect_key_event_to_function(InputEvent::Key(Key::Right), &mut g);
    assert_eq!(g.cursor.position, (0, 0));
    g.mode = MODE_SEQUENCER;
    connect_key_event_to_function(InputEvent::Key(Key::Down), &mut g);
    assert_eq!(g.cursor.position, (1, 0));
    assert_eq!(g.track_begin(), 1);
    connect_key_event_to_function(InputEvent::Mouse(MouseKind::ScrollDown), &mut g);
    assert_eq!(g.track_begin(), 0);
    connect_key_event_to_function(InputEvent::Mouse(MouseKind::Other), &mut g);
    connect_key_event_to_function(InputEvent::Other, &mut g);
    assert_eq!(g.track_begin(), 0);
    g.mode = MODE_TRACKER;
    connect_key_event_to_function(InputEvent::Key(Key::Down), &mut g);
    assert_eq!(g.cursor.position, (1, 0));
}

#[test]
fn text_beside_rows() {
    let expected = [
        "Sample", "(sample_name)", "Autostep", "(step_size)", "PPQ", "(ppq)", "BPM", "(tempo)",
        "Scale/mode", "(scale)",
    ];
    for (i, e) in expected.iter().enumerate() {
        assert_eq!(get_text_after(i as i32), *e);
    }
    assert_eq!(get_text_after(10), "");
    assert_eq!(get_text_after(-1), "");
    assert_eq!(get_data(3, 4), "......|");
}

#[test]
fn sequence_lines() {
    assert_eq!(sequence_to_string(&sequence_of(0)), format!("{}      ", "[.]".repeat(16)));
    assert_eq!(sequence_to_string(&sequence_of(3)), format!("[0][1][2]{}      ", "[.]".repeat(13)));
    let all: String = (0..16).map(|i| format!("[{}]", i)).collect();
    assert_eq!(sequence_to_string(&sequence_of(17)), all);
    assert_eq!(sequence_to_string(&sequence_of(18)), format!("{}   ", all));
}

#[test]
fn default_sequencer_screen() {
    let g = Globe::new();
    let mut expected = String::from("\x1B[2J0w0 - Furro - 'non-human userbase' ^w^ EZGQRTracker\n");
    expected.push_str(&format!("{}       |Pattern: 1\n", "[.]".repeat(16)));
    expected.push_str("--------------------------------------------------------------------\n");
    expected.push_str("TRACK1|TRACK2|TRACK3|TRACK4|TRACK5|TRACK6|TRACK7|TRACK8|Sample:\n");
    let after = [
        "Sample", "(sample_name)", "Autostep", "(step_size)", "PPQ", "(ppq)", "BPM", "(tempo)",
        "Scale/mode", "(scale)", "", "", "", "", "", "",
    ];
    for a in after {
        expected.push_str(&"......|".repeat(8));
        expected.push_str(a);
        expected.push('\n');
    }
    expected.push_str("\\/\\/\\/\n");
    assert_eq!(sequencer_screen_text(&g), expected);
}

#[test]
fn scrolled_sequencer_screen_arrows() {
    let mut g = Globe::new();
    g.seq = sequence_of(17);
    g.move_up();
    let screen = sequencer_screen_text(&g);
    assert!(screen.contains("Sample:\n^^^^\n"));
    assert!(!screen.contains("\\/\\/\\/"));
    assert!(screen.contains("......|(sample_name)\n"));
}

#[test]
fn menu_commands() {
    assert_eq!(menu_command("quit\n"), MenuCommand::Quit);
    assert_eq!(menu_command("  help \r\n"), MenuCommand::Help);
    assert_eq!(menu_command("load"), MenuCommand::Load);
    assert_eq!(menu_command("sequence\n"), MenuCommand::Sequence);
    assert_eq!(menu_command("samples\n"), MenuCommand::Samples);
    assert_eq!(menu_command("hi\n"), MenuCommand::Hi);
    assert_eq!(menu_command("mix\n"), MenuCommand::Mix);
    assert_eq!(menu_command("master\n"), MenuCommand::Master);
    assert_eq!(menu_command("export\n"), MenuCommand::Export);
    assert_eq!(menu_command("qu it\n"), MenuCommand::Unknown);
    assert_eq!(menu_command(""), MenuCommand::Unknown);
    assert_eq!(menu_word("Quit"), MenuCommand::Unknown);
}

#[test]
fn sample_editor_commands() {
    assert_eq!(edit_samples("quit\n"), SampleCommand::Quit);
    assert_eq!(edit_samples("\ttruncate\n"), SampleCommand::Truncate);
    assert_eq!(edit_samples("repitch"), SampleCommand::Repitch);
    assert_eq!(edit_samples("time-stretch\n"), SampleCommand::TimeStretch);
    assert_eq!(edit_samples("param-eq\n"), SampleCommand::ParamEq);
    assert_eq!(edit_samples("eq\n"), SampleCommand::Unknown);
    assert_eq!(sample_word(" quit"), SampleCommand::Unknown);
}

#[test]
fn trimming() {
    assert_eq!(trim_text("  a b \n"), "a b");
    assert_eq!(trim_text("\u{3000}x\u{2003}"), "x");
    assert_eq!(trim_text(" \t\n"), "");
    assert_eq!(trim_text("é"), "é");
}

#[test]
fn stubs_do_nothing() {
    load();
    check_input();
    get_note_as_string();
    master_edit();
    load_file();
    load_wav();
}
