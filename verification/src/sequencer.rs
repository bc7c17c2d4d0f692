//! The sequencer screen of the menu program: the pattern sequence, the
//! scrolling window of tracks, the cursor, and the text of the screen.

use crate::text::{push_char, push_signed_decimal, signed_decimal};
use crate::ui::Key;
use vstd::prelude::*;
use vstd::string::*;

verus! {

/// The menu program's modes.
pub const MODE_MENU: i8 = 0;
pub const MODE_SEQUENCER: i8 = 1;
pub const MODE_TRACKER: i8 = 2;
pub const MODE_SAMPLE_EDIT: i8 = 3;

/// A note of the sequencer: pitch, sample number and channel.
#[derive(Clone, Copy, Debug, PartialEq, Eq, Structural)]
pub struct Note {
    pub pitch: i8,
    pub sample: i8,
    pub channel: i8,
}

/// The notes that sound at one step.
pub struct Step {
    pub notes: Vec<Note>,
}

/// One track: its steps.
pub struct Track {
    pub track: Vec<Step>,
}

/// A pattern: its tracks (eight of them, for now).
pub struct Pattern {
    pub pattern: Vec<Track>,
}

/// The cursor of the sequencer screen: row and column.
#[derive(Clone, Copy, Debug, PartialEq, Eq)]
pub struct SeqCursor {
    pub position: (i32, i32),
}

/// The lowest row the cursor reaches.
pub const CURSOR_LAST_ROW: i32 = 42;

/// The cursor after moving up: a row up unless at the top.
pub open spec fn up_of(c: SeqCursor) -> SeqCursor {
    if c.position.0 > 0 {
        SeqCursor { position: ((c.position.0 - 1) as i32, c.position.1) }
    } else {
        c
    }
}

/// The cursor after moving down: a row down unless at row 42 or below.
pub open spec fn down_of(c: SeqCursor) -> SeqCursor {
    if c.position.0 < CURSOR_LAST_ROW {
        SeqCursor { position: ((c.position.0 + 1) as i32, c.position.1) }
    } else {
        c
    }
}

/// The cursor after moving left: a column left unless at the first.
pub open spec fn left_of(c: SeqCursor) -> SeqCursor {
    if c.position.1 > 0 {
        SeqCursor { position: (c.position.0, (c.position.1 - 1) as i32) }
    } else {
        c
    }
}

/// The cursor after moving right: 42 columns right from a column past the
/// first, else no move.
pub open spec fn right_of(c: SeqCursor) -> SeqCursor {
    if c.position.1 > 0 {
        SeqCursor { position: (c.position.0, (c.position.1 + 42) as i32) }
    } else {
        c
    }
}

impl SeqCursor {
    /// The cursor at row 0, column 0.
    pub fn new() -> (c: SeqCursor)
        ensures
            c.position == (0i32, 0i32),
    {
        SeqCursor { position: (0, 0) }
    }

    /// Moves up a row, unless at the top.
    pub fn cursor_up(&mut self)
        ensures
            *final(self) == up_of(*old(self)),
    {
        if self.position.0 > 0 {
            self.position.0 = self.position.0 - 1;
        }
    }

    /// Moves down a row, unless at row 42 or below.
    pub fn cursor_down(&mut self)
        ensures
            *final(self) == down_of(*old(self)),
    {
        if self.position.0 < CURSOR_LAST_ROW {
            self.position.0 = self.position.0 + 1;
        }
    }

    /// Moves left a column, unless at the first.
    pub fn cursor_left(&mut self)
        ensures
            *final(self) == left_of(*old(self)),
    {
        if self.position.1 > 0 {
            self.position.1 = self.position.1 - 1;
        }
    }

    /// Jumps 42 columns right, but only from a column past the first; from
    /// the first column (where the cursor starts) it does not move.
    pub fn cursor_right(&mut self)
        requires
            old(self).position.1 > 0 ==> old(self).position.1 + 42 <= i32::MAX,
        ensures
            *final(self) == right_of(*old(self)),
    {
        if self.position.1 > 0 {
            self.position.1 = self.position.1 + 42;
        }
    }

    pub fn cursor_row(&self) -> (r: i32)
        ensures
            r == self.position.0,
    {
        self.position.0
    }

    pub fn cursor_column(&self) -> (c: i32)
        ensures
            c == self.position.1,
    {
        self.position.1
    }
}

/// The sequence of patterns.
pub struct Sequence {
    pub sequence: Vec<Pattern>,
}

impl Sequence {
    /// An empty sequence.
    pub fn new() -> (s: Sequence)
        ensures
            s.sequence@.len() == 0,
    {
        Sequence { sequence: Vec::new() }
    }

    /// The pattern number at `location` of the sequence: for now the
    /// location itself.
    pub fn get_pattern_number(&self, location: i32) -> (n: i32)
        ensures
            n == location,
    {
        location
    }

    /// The number of patterns, as an `i32` (wrapping as `as` does).
    pub fn length(&self) -> (n: i32)
        ensures
            n == self.sequence@.len() as i32,
    {
        self.sequence.len() as i32
    }
}


/// A quote for the splash text.
pub fn get_quote() -> (q: String)
    ensures
        q@ == "non-human userbase"@,
{
    String::from_str("non-human userbase")
}

/// The program's name, in one of its variations.
pub fn get_program_name() -> (n: String)
    ensures
        n@ == "EZGQRTracker"@,
{
    String::from_str("EZGQRTracker")
}

/// Everything the menu program passes between its screens.  Audio samples
/// are kept beside it, by the program's audio side.
pub struct Globe {
    pub seq: Sequence,
    pub project_name: String,
    pub author: String,
    pub splash_text: String,
    pub title: String,
    pub cursor: SeqCursor,
    /// First track row shown.
    pub track_begin: i32,
    /// Row after the last one shown.
    pub track_end: i32,
    pub mode: i8,
}

/// The number of patterns as the screens count them (an `i32`).
pub open spec fn seq_len(g: Globe) -> i32 {
    g.seq.sequence@.len() as i32
}

/// The window scrolled one track further, if rows follow it.
pub open spec fn scrolled_up(g: Globe) -> Globe {
    if g.track_end < seq_len(g) {
        Globe { track_begin: (g.track_begin + 1) as i32, track_end: (g.track_end + 1) as i32, ..g }
    } else {
        g
    }
}

/// The window scrolled one track back, if it is not at the start.
pub open spec fn scrolled_down(g: Globe) -> Globe {
    if g.track_begin > 0 {
        Globe { track_begin: (g.track_begin - 1) as i32, track_end: (g.track_end - 1) as i32, ..g }
    } else {
        g
    }
}

impl Globe {
    /// The default project: `0w0` by `Furro`, an empty sequence, the quote
    /// and program name, the cursor at the start, tracks 0 to 15 shown, in
    /// the menu.
    pub fn new() -> (g: Globe)
        ensures
            g.project_name@ == "0w0"@,
            g.author@ == "Furro"@,
            g.seq.sequence@.len() == 0,
            g.splash_text@ == "non-human userbase"@,
            g.title@ == "EZGQRTracker"@,
            g.cursor.position == (0i32, 0i32),
            g.track_begin == 0,
            g.track_end == 16,
            g.mode == MODE_MENU,
            g.wf(),
    {
        Globe {
            project_name: String::from_str("0w0"),
            author: String::from_str("Furro"),
            seq: Sequence::new(),
            splash_text: get_quote(),
            title: get_program_name(),
            cursor: SeqCursor::new(),
            track_begin: 0,
            track_end: 16,
            mode: MODE_MENU,
        }
    }

    /// The window shows sixteen tracks from a track that is not negative.
    pub open spec fn wf(&self) -> bool {
        0 <= self.track_begin && self.track_end == self.track_begin + 16
    }

    /// Scrolls the window back a track, if it is not at the start.
    pub fn move_down(&mut self)
        requires
            old(self).track_begin > 0 ==> old(self).track_end > i32::MIN,
        ensures
            *final(self) == scrolled_down(*old(self)),
    {
        if self.track_begin > 0 {
            self.track_begin = self.track_begin - 1;
            self.track_end = self.track_end - 1;
        }
    }

    /// Scrolls the window on a track, if tracks follow it.
    pub fn move_up(&mut self)
        requires
            old(self).track_end < seq_len(*old(self)) ==> old(self).track_begin < i32::MAX,
        ensures
            *final(self) == scrolled_up(*old(self)),
    {
        if self.track_end < self.seq.length() {
            self.track_begin = self.track_begin + 1;
            self.track_end = self.track_end + 1;
        }
    }

    pub fn track_begin(&self) -> (b: i32)
        ensures
            b == self.track_begin,
    {
        self.track_begin
    }

    pub fn track_end(&self) -> (e: i32)
        ensures
            e == self.track_end,
    {
        self.track_end
    }

    pub fn name(&self) -> (n: &String)
        ensures
            n == &self.project_name,
    {
        &self.project_name
    }

    pub fn author(&self) -> (a: &String)
        ensures
            a == &self.author,
    {
        &self.author
    }

    pub fn splash(&self) -> (s: &String)
        ensures
            s == &self.splash_text,
    {
        &self.splash_text
    }

    pub fn title(&self) -> (t: &String)
        ensures
            t == &self.title,
    {
        &self.title
    }

    pub fn cursor_row(&self) -> (r: i32)
        ensures
            r == self.cursor.position.0,
    {
        self.cursor.cursor_row()
    }

    pub fn cursor_column(&self) -> (c: i32)
        ensures
            c == self.cursor.position.1,
    {
        self.cursor.cursor_column()
    }
}

/// Both scrolling moves keep the window sixteen tracks wide and off the
/// negative tracks.
pub proof fn lemma_scrolling_keeps_window(g: Globe)
    requires
        g.wf(),
    ensures
        scrolled_up(g).wf(),
        scrolled_down(g).wf(),
{
}

/// Scrolling back undoes scrolling on, when scrolling on moved the window.
pub proof fn lemma_scroll_down_undoes_up(g: Globe)
    requires
        g.wf(),
        g.track_end < seq_len(g),
    ensures
        scrolled_down(scrolled_up(g)) == g,
{
}

/// Moving the cursor up undoes moving it down, from a row inside 0 to 41.
pub proof fn lemma_cursor_up_undoes_down(c: SeqCursor)
    requires
        0 <= c.position.0 < CURSOR_LAST_ROW,
    ensures
        up_of(down_of(c)) == c,
{
}

/// Moving up and down keeps a cursor that is inside rows 0 to 42 inside
/// them.
pub proof fn lemma_cursor_rows_stay(c: SeqCursor)
    requires
        0 <= c.position.0 <= CURSOR_LAST_ROW,
    ensures
        0 <= up_of(c).position.0 <= CURSOR_LAST_ROW,
        0 <= down_of(c).position.0 <= CURSOR_LAST_ROW,
{
}

/// A mouse event, as the screens tell them apart.
#[derive(Clone, Copy, Debug, PartialEq, Eq, Structural)]
pub enum MouseKind {
    ScrollUp,
    ScrollDown,
    Other,
}

/// An input event: a key, a mouse event, or anything else.
#[derive(Clone, Copy, Debug, PartialEq, Eq, Structural)]
pub enum InputEvent {
    Key(Key),
    Mouse(MouseKind),
    Other,
}

/// The state after `e`: in the menu, Up and Down scroll the window; in the
/// sequencer the arrow keys move the cursor; in both, the mouse wheel
/// scrolls the window; other modes and events change nothing.
pub open spec fn globe_after_event(g: Globe, e: InputEvent) -> Globe {
    let wheel = match e {
        InputEvent::Mouse(MouseKind::ScrollUp) => scrolled_up(g),
        InputEvent::Mouse(MouseKind::ScrollDown) => scrolled_down(g),
        _ => g,
    };
    if g.mode == MODE_MENU {
        match e {
            InputEvent::Key(Key::Up) => scrolled_up(g),
            InputEvent::Key(Key::Down) => scrolled_down(g),
            _ => wheel,
        }
    } else if g.mode == MODE_SEQUENCER {
        match e {
            InputEvent::Key(Key::Up) => Globe { cursor: up_of(g.cursor), ..g },
            InputEvent::Key(Key::Down) => Globe { cursor: down_of(g.cursor), ..g },
            InputEvent::Key(Key::Left) => Globe { cursor: left_of(g.cursor), ..g },
            InputEvent::Key(Key::Right) => Globe { cursor: right_of(g.cursor), ..g },
            _ => wheel,
        }
    } else {
        g
    }
}

/// Whether `e` scrolls the window on in mode `mode`.
pub open spec fn scrolls_up(mode: i8, e: InputEvent) -> bool {
    ||| mode == MODE_MENU && e == InputEvent::Key(Key::Up)
    ||| (mode == MODE_MENU || mode == MODE_SEQUENCER) && e == InputEvent::Mouse(MouseKind::ScrollUp)
}

/// Whether `e` scrolls the window back in mode `mode`.
pub open spec fn scrolls_down(mode: i8, e: InputEvent) -> bool {
    ||| mode == MODE_MENU && e == InputEvent::Key(Key::Down)
    ||| (mode == MODE_MENU || mode == MODE_SEQUENCER) && e == InputEvent::Mouse(
        MouseKind::ScrollDown,
    )
}

/// The inputs on which handling `e` overflows no counter.
pub open spec fn event_in_bounds(g: Globe, e: InputEvent) -> bool {
    &&& scrolls_up(g.mode, e) ==> (g.track_end < seq_len(g) ==> g.track_begin < i32::MAX)
    &&& scrolls_down(g.mode, e) ==> (g.track_begin > 0 ==> g.track_end > i32::MIN)
    &&& g.mode == MODE_SEQUENCER && e == InputEvent::Key(Key::Right) ==> (g.cursor.position.1 > 0
        ==> g.cursor.position.1 + 42 <= i32::MAX)
}

/// Every event keeps the window sixteen tracks wide and off the negative
/// tracks.
pub proof fn lemma_event_keeps_window(g: Globe, e: InputEvent)
    requires
        g.wf(),
    ensures
        globe_after_event(g, e).wf(),
{
}

/// The mouse wheel, in the menu and in the sequencer, scrolls the track
/// window and nothing else: up moves it on by one track when tracks follow
/// it, down moves it back by one when it is past the start; the cursor, the
/// sequence, the texts and the mode stay.
pub proof fn lemma_wheel_scrolls_window(g: Globe, e: InputEvent)
    requires
        g.mode == MODE_MENU || g.mode == MODE_SEQUENCER,
        e == InputEvent::Mouse(MouseKind::ScrollUp) || e == InputEvent::Mouse(MouseKind::ScrollDown),
        event_in_bounds(g, e),
    ensures
        ({
            let r = globe_after_event(g, e);
            let n = g.seq.sequence@.len() as i32;
            &&& r.cursor == g.cursor
            &&& r.seq == g.seq
            &&& r.mode == g.mode
            &&& r.project_name == g.project_name
            &&& r.author == g.author
            &&& r.splash_text == g.splash_text
            &&& r.title == g.title
            &&& e == InputEvent::Mouse(MouseKind::ScrollUp) ==> {
                &&& r.track_begin == if g.track_end < n {
                    g.track_begin + 1
                } else {
                    g.track_begin as int
                }
                &&& r.track_end == if g.track_end < n {
                    g.track_end + 1
                } else {
                    g.track_end as int
                }
            }
            &&& e == InputEvent::Mouse(MouseKind::ScrollDown) ==> {
                &&& r.track_begin == if g.track_begin > 0 {
                    g.track_begin - 1
                } else {
                    g.track_begin as int
                }
                &&& r.track_end == if g.track_begin > 0 {
                    g.track_end - 1
                } else {
                    g.track_end as int
                }
            }
        }),
{
}

/// In the sequencer the arrow keys move the cursor and leave the window:
/// up and left step back a row or column unless at 0, down steps on a row
/// unless at row 42, right jumps 42 columns from a column past the first.
pub proof fn lemma_sequencer_arrows_move_cursor(g: Globe, k: Key)
    requires
        g.mode == MODE_SEQUENCER,
        k == Key::Up || k == Key::Down || k == Key::Left || k == Key::Right,
    ensures
        ({
            let r = globe_after_event(g, InputEvent::Key(k));
            let (row, col) = g.cursor.position;
            &&& r.track_begin == g.track_begin
            &&& r.track_end == g.track_end
            &&& r.seq == g.seq
            &&& k == Key::Up ==> r.cursor.position == (if row > 0 {
                ((row - 1) as i32, col)
            } else {
                (row, col)
            })
            &&& k == Key::Down ==> r.cursor.position == (if row < 42 {
                ((row + 1) as i32, col)
            } else {
                (row, col)
            })
            &&& k == Key::Left ==> r.cursor.position == (if col > 0 {
                (row, (col - 1) as i32)
            } else {
                (row, col)
            })
            &&& k == Key::Right ==> r.cursor.position == (if col > 0 {
                (row, (col + 42) as i32)
            } else {
                (row, col)
            })
        }),
{
}

/// In the menu, Up and Down scroll the window like the wheel and leave the
/// cursor; in the tracker and sample-edit modes no event changes anything.
pub proof fn lemma_menu_keys_and_idle_modes(g: Globe, e: InputEvent)
    ensures
        g.mode == MODE_MENU && e == InputEvent::Key(Key::Up) ==> globe_after_event(g, e)
            == globe_after_event(g, InputEvent::Mouse(MouseKind::ScrollUp)),
        g.mode == MODE_MENU && e == InputEvent::Key(Key::Down) ==> globe_after_event(g, e)
            == globe_after_event(g, InputEvent::Mouse(MouseKind::ScrollDown)),
        g.mode == MODE_MENU ==> globe_after_event(g, e).cursor == g.cursor,
        g.mode != MODE_MENU && g.mode != MODE_SEQUENCER ==> globe_after_event(g, e) == g,
{
}

/// Applies an input event to the menu program's state.
pub fn connect_key_event_to_function(event: InputEvent, global: &mut Globe)
    requires
        event_in_bounds(*old(global), event),
    ensures
        *final(global) == globe_after_event(*old(global), event),
{
    if global.mode == MODE_MENU {
        match event {
            InputEvent::Key(key) => match key {
                Key::Up => global.move_up(),
                Key::Down => global.move_down(),
                _ => {},
            },
            InputEvent::Mouse(kind) => match kind {
                MouseKind::ScrollUp => global.move_up(),
                MouseKind::ScrollDown => global.move_down(),
                _ => {},
            },
            _ => {},
        }
    } else if global.mode == MODE_SEQUENCER {
        match event {
            InputEvent::Key(key) => match key {
                Key::Up => global.cursor.cursor_up(),
                Key::Down => global.cursor.cursor_down(),
                Key::Left => global.cursor.cursor_left(),
                Key::Right => global.cursor.cursor_right(),
                _ => {},
            },
            InputEvent::Mouse(kind) => match kind {
                MouseKind::ScrollUp => global.move_up(),
                MouseKind::ScrollDown => global.move_down(),
                _ => {},
            },
            _ => {},
        }
    } else if global.mode == MODE_TRACKER {
    } else if global.mode == MODE_SAMPLE_EDIT {
    }
}


/// The text beside track row `row`: the names of the settings and, on the
/// line below each, where its value goes; nothing past row 9.
pub open spec fn text_after(row: i32) -> Seq<char> {
    if row == 0 {
        "Sample"@
    } else if row == 1 {
        "(sample_name)"@
    } else if row == 2 {
        "Autostep"@
    } else if row == 3 {
        "(step_size)"@
    } else if row == 4 {
        "PPQ"@
    } else if row == 5 {
        "(ppq)"@
    } else if row == 6 {
        "BPM"@
    } else if row == 7 {
        "(tempo)"@
    } else if row == 8 {
        "Scale/mode"@
    } else if row == 9 {
        "(scale)"@
    } else {
        ""@
    }
}

/// The text beside track row `row` of the sequencer screen.
pub fn get_text_after(row: i32) -> (t: String)
    ensures
        t@ == text_after(row),
{
    match row {
        0 => String::from_str("Sample"),
        1 => String::from_str("(sample_name)"),
        2 => String::from_str("Autostep"),
        3 => String::from_str("(step_size)"),
        4 => String::from_str("PPQ"),
        5 => String::from_str("(ppq)"),
        6 => String::from_str("BPM"),
        7 => String::from_str("(tempo)"),
        8 => String::from_str("Scale/mode"),
        9 => String::from_str("(scale)"),
        _ => String::from_str(""),
    }
}

/// The cell of a track at a row: always empty for now.
pub fn get_data(track: i32, column: i32) -> (d: String)
    ensures
        d@ == "......|"@,
{
    String::from_str("......|")
}

/// The first `n` of the sixteen cells of the sequence line: the pattern
/// number in brackets for each pattern, `[.]` past the end.
pub open spec fn sequence_cells(len: i32, n: nat) -> Seq<char>
    decreases n,
{
    if n == 0 {
        Seq::empty()
    } else {
        sequence_cells(len, (n - 1) as nat) + if n - 1 < len {
            "["@ + signed_decimal(n - 1) + "]"@
        } else {
            "[.]"@
        }
    }
}

/// The sequence line for a sequence of `len` patterns: sixteen cells, then
/// six spaces when there are fewer than seventeen patterns, nothing for
/// exactly seventeen, and three spaces for more.
pub open spec fn sequence_text(len: i32) -> Seq<char> {
    sequence_cells(len, 16) + if len < 17 {
        "      "@
    } else if len == 17 {
        Seq::empty()
    } else {
        "   "@
    }
}

/// The sequence line of the sequencer screen.
pub fn sequence_to_string(seq: &Sequence) -> (r: String)
    ensures
        r@ == sequence_text(seq.sequence@.len() as i32),
{
    let mut sequence_displayed = String::new();
    let length_seq = seq.length();
    let mut i: i32 = 0;
    while i < 16
        invariant
            0 <= i <= 16,
            length_seq == seq.sequence@.len() as i32,
            sequence_displayed@ == sequence_cells(length_seq, i as nat),
        decreases 16 - i,
    {
        if i < length_seq {
            sequence_displayed.append("[");
            push_signed_decimal(&mut sequence_displayed, seq.get_pattern_number(i) as i64);
            sequence_displayed.append("]");
        } else {
            sequence_displayed.append("[.]");
        }
        i = i + 1;
        assert(sequence_displayed@ =~= sequence_cells(length_seq, i as nat));
    }
    if length_seq < 17 {
        sequence_displayed.append("      ");
    } else if length_seq == 17 {
    } else {
        sequence_displayed.append("   ");
    }
    assert(sequence_displayed@ =~= sequence_text(length_seq));
    sequence_displayed
}

/// Each cell of the sequence line is the position in brackets (counted from
/// 0) while the sequence has a pattern there, and `[.]` past its end; the
/// line holds sixteen such cells of three characters or more.
pub proof fn lemma_sequence_cells_step(len: i32, n: nat)
    ensures
        n < len ==> sequence_cells(len, n + 1) == sequence_cells(len, n) + seq!['['] + signed_decimal(
            n as int,
        ) + seq![']'],
        n >= len ==> sequence_cells(len, n + 1) == sequence_cells(len, n) + seq!['[', '.', ']'],
{
    reveal_strlit("[");
    reveal_strlit("]");
    reveal_strlit("[.]");
    if n < len {
        assert(sequence_cells(len, n + 1) =~= sequence_cells(len, n) + seq!['['] + signed_decimal(
            n as int,
        ) + seq![']']);
    } else {
        assert(sequence_cells(len, n + 1) =~= sequence_cells(len, n) + seq!['[', '.', ']']);
    }
}

/// Eight empty track cells.
pub open spec fn data_cells(n: nat) -> Seq<char>
    decreases n,
{
    if n == 0 {
        Seq::empty()
    } else {
        data_cells((n - 1) as nat) + "......|"@
    }
}

/// Track rows `begin` to `begin + n - 1`: eight empty cells and the text
/// beside the row.
pub open spec fn track_rows(begin: int, n: nat) -> Seq<char>
    decreases n,
{
    if n == 0 {
        Seq::empty()
    } else {
        track_rows(begin, (n - 1) as nat) + data_cells(8) + text_after((begin + n - 1) as i32)
            + "\n"@
    }
}

/// The sequencer screen: clear the terminal, the title line, the sequence
/// line, rule and track header, an up arrow unless the window starts at
/// track 0, the rows of the window, and a down arrow unless the window ends
/// at the sequence's length.
pub open spec fn sequencer_screen(g: Globe) -> Seq<char> {
    let n = if g.track_end > g.track_begin {
        (g.track_end - g.track_begin) as nat
    } else {
        0
    };
    seq!['\x1B'] + "[2J"@ + g.project_name@ + " - "@ + g.author@ + " - \'"@ + g.splash_text@
        + "\' ^w^ "@ + g.title@ + "\n"@ + sequence_text(seq_len(g)) + " |Pattern: "@ + "1"@
        + "\n"@ + "--------------------------------------------------------------------\n"@
        + "TRACK1|TRACK2|TRACK3|TRACK4|TRACK5|TRACK6|TRACK7|TRACK8|Sample:\n"@ + (if g.track_begin
        != 0 {
        "^^^^\n"@
    } else {
        Seq::empty()
    }) + track_rows(g.track_begin as int, n) + (if g.track_end != seq_len(g) {
        "\\/\\/\\/\n"@
    } else {
        Seq::empty()
    })
}

fn push_track_rows(s: &mut String, begin: i32, end: i32)
    ensures
        final(s)@ == old(s)@ + track_rows(
            begin as int,
            if end > begin {
                (end - begin) as nat
            } else {
                0
            },
        ),
{
    let mut i = begin;
    while i < end
        invariant
            begin <= i,
            i <= end || end <= begin,
            end <= begin ==> i == begin,
            s@ == old(s)@ + track_rows(begin as int, (i - begin) as nat),
        decreases end - i,
    {
        let ghost before = s@;
        let mut y: i32 = 0;
        while y < 8
            invariant
                0 <= y <= 8,
                s@ == before + data_cells(y as nat),
            decreases 8 - y,
        {
            let cell = get_data(y, i);
            s.append(cell.as_str());
            y = y + 1;
        }
        let after = get_text_after(i);
        s.append(after.as_str());
        s.append("\n");
        i = i + 1;
        assert(s@ =~= old(s)@ + track_rows(begin as int, (i - begin) as nat));
    }
}

/// The sequencer screen as the terminal prints it (what
/// `display_sequencer_screen` shows).
pub fn sequencer_screen_text(firm: &Globe) -> (r: String)
    ensures
        r@ == sequencer_screen(*firm),
{
    let mut s = String::new();
    push_char(&mut s, '\x1B');
    s.append("[2J");
    s.append(firm.name().as_str());
    s.append(" - ");
    s.append(firm.author().as_str());
    s.append(" - \'");
    s.append(firm.splash().as_str());
    s.append("\' ^w^ ");
    s.append(firm.title().as_str());
    s.append("\n");
    let ghost a = s@;
    let line = sequence_to_string(&firm.seq);
    s.append(line.as_str());
    s.append(" |Pattern: ");
    s.append("1");
    s.append("\n");
    s.append("--------------------------------------------------------------------\n");
    s.append("TRACK1|TRACK2|TRACK3|TRACK4|TRACK5|TRACK6|TRACK7|TRACK8|Sample:\n");
    if firm.track_begin() != 0 {
        s.append("^^^^\n");
    }
    let ghost b = s@;
    push_track_rows(&mut s, firm.track_begin(), firm.track_end());
    let ghost c = s@;
    if firm.track_end() != firm.seq.length() {
        s.append("\\/\\/\\/\n");
    }
    proof {
        let t = seq!['\x1B'] + "[2J"@ + firm.project_name@ + " - "@ + firm.author@ + " - \'"@
            + firm.splash_text@ + "\' ^w^ "@ + firm.title@ + "\n"@;
        assert(a =~= t);
        let m = sequence_text(seq_len(*firm)) + " |Pattern: "@ + "1"@ + "\n"@
            + "--------------------------------------------------------------------\n"@
            + "TRACK1|TRACK2|TRACK3|TRACK4|TRACK5|TRACK6|TRACK7|TRACK8|Sample:\n"@ + (if firm.track_begin
            != 0 {
            "^^^^\n"@
        } else {
            Seq::empty()
        });
        assert(b =~= a + m);
        let d: Seq<char> = if firm.track_end != seq_len(*firm) {
            "\\/\\/\\/\n"@
        } else {
            Seq::empty()
        };
        assert(s@ =~= c + d);
        assert(sequencer_screen(*firm) =~= t + m + (c.subrange(b.len() as int, c.len() as int)) + d);
    }
    s
}

} // verus!
