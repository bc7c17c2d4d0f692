//! The editor's state and what each key does to it and to the song.

use crate::song::{empty_note, lemma_grid_at, same_shape, stop_note, Note, Song};
use crate::text::{pop_char, push_char};
use vstd::prelude::*;
use vstd::string::*;

verus! {

/// Rows of a pattern visible at once.
pub const VISIBLE_ROWS: usize = 8;

/// Project metadata shown on the screen.
pub struct ProjectMeta {
    pub name: String,
    pub author: String,
    /// Six characters each, ideally.
    pub track_names: Vec<String>,
    pub autostep: u32,
    pub ppq: u32,
}

/// The part of the screen that the cursor is in.
#[derive(Clone, Copy, Debug, PartialEq, Eq, Structural)]
pub enum CursorRegion {
    Sequencer,
    Pattern,
    SideInfo,
    Command,
}

/// Where the cursor is: its region, row and column, and the first pattern
/// row shown.
#[derive(Clone, Copy, Debug, PartialEq, Eq, Structural)]
pub struct CursorState {
    pub region: CursorRegion,
    pub row: usize,
    pub col: usize,
    pub row_start: usize,
}

impl CursorState {
    /// The cursor at the top left of the pattern.
    pub fn new() -> (c: CursorState)
        ensures
            c == (CursorState { region: CursorRegion::Pattern, row: 0, col: 0, row_start: 0 }),
    {
        CursorState { region: CursorRegion::Pattern, row: 0, col: 0, row_start: 0 }
    }
}

/// Everything the editor screen shows besides the song.
pub struct UiState {
    pub project: ProjectMeta,
    pub cursor: CursorState,
    pub current_pattern_index: usize,
    pub show_cmd: bool,
    pub cmd_buffer: String,
    pub current_sample_name: String,
    pub is_playing: bool,
}

/// The parts of the editor state that keys change.
pub struct UiView {
    pub cursor: CursorState,
    pub pattern: usize,
    pub show_cmd: bool,
    pub cmd: Seq<char>,
    pub playing: bool,
}

impl UiState {
    /// A fresh editor for `project`: cursor at the top left of the first
    /// pattern, no command line, sample `SQUARE1`, stopped.
    pub fn new(project: ProjectMeta) -> (u: UiState)
        ensures
            u.project == project,
            u.cursor == (CursorState { region: CursorRegion::Pattern, row: 0, col: 0, row_start: 0 }),
            u.current_pattern_index == 0,
            !u.show_cmd,
            u.cmd_buffer@ == Seq::<char>::empty(),
            u.current_sample_name@ == seq!['S', 'Q', 'U', 'A', 'R', 'E', '1'],
            !u.is_playing,
    {
        let name = String::from_str("SQUARE1");
        proof {
            reveal_strlit("SQUARE1");
        }
        UiState {
            project,
            cursor: CursorState::new(),
            current_pattern_index: 0,
            show_cmd: false,
            cmd_buffer: String::new(),
            current_sample_name: name,
            is_playing: false,
        }
    }

    pub open spec fn view(&self) -> UiView {
        UiView {
            cursor: self.cursor,
            pattern: self.current_pattern_index,
            show_cmd: self.show_cmd,
            cmd: self.cmd_buffer@,
            playing: self.is_playing,
        }
    }
}

/// A key press, as the editor tells keys apart.
#[derive(Clone, Copy, Debug, PartialEq, Eq, Structural)]
pub enum Key {
    Char(char),
    /// A function key, by number.
    F(u8),
    Enter,
    Esc,
    Backspace,
    Left,
    Right,
    Up,
    Down,
    /// Any other key.
    Other,
}

/// Characters that act as commands rather than as note entry.
pub open spec fn is_command_char(c: char) -> bool {
    c == '`' || c == ' ' || c == 's' || c == 'p' || c == 'i'
}

/// The cursor moves left and right in these regions.
pub open spec fn horizontal_region(r: CursorRegion) -> bool {
    r == CursorRegion::Pattern || r == CursorRegion::Sequencer
}

/// The state with the command line closed and the cursor back in the pattern.
pub open spec fn closed_command(u: UiView) -> UiView {
    UiView {
        show_cmd: false,
        cmd: Seq::empty(),
        cursor: CursorState { region: CursorRegion::Pattern, ..u.cursor },
        ..u
    }
}

/// The state with the command line opened empty.
pub open spec fn opened_command(u: UiView) -> UiView {
    UiView {
        show_cmd: true,
        cmd: Seq::empty(),
        cursor: CursorState { region: CursorRegion::Command, ..u.cursor },
        ..u
    }
}

/// The cursor moved to `region` at row 0, column 0.
pub open spec fn jumped(u: UiView, region: CursorRegion) -> UiView {
    UiView { cursor: CursorState { region, row: 0, col: 0, ..u.cursor }, ..u }
}

/// The cursor moved to `region`, keeping row and column.
pub open spec fn in_region(u: UiView, region: CursorRegion) -> UiView {
    UiView { cursor: CursorState { region, ..u.cursor }, ..u }
}

/// The cursor after Down in a pattern of `len` rows: it moves down inside
/// the visible window, or scrolls the window with it when it is at the
/// window's bottom and more rows follow, or stays.
pub open spec fn cursor_down(c: CursorState, len: int) -> CursorState {
    if c.row < c.row_start + (VISIBLE_ROWS - 1) && c.row + 1 < len {
        CursorState { row: (c.row + 1) as usize, ..c }
    } else if c.row_start + VISIBLE_ROWS < len {
        CursorState { row: (c.row + 1) as usize, row_start: (c.row_start + 1) as usize, ..c }
    } else {
        c
    }
}

/// The editor state after `key`, for a song whose patterns are `pats`.
pub open spec fn ui_after_key(pats: Seq<Seq<Seq<Note>>>, u: UiView, key: Key) -> UiView {
    if u.show_cmd {
        match key {
            Key::Esc => closed_command(u),
            Key::Enter => closed_command(u),
            Key::Char(c) => UiView { cmd: u.cmd.push(c), ..u },
            Key::Backspace => if u.cmd.len() > 0 {
                UiView { cmd: u.cmd.drop_last(), ..u }
            } else {
                u
            },
            _ => u,
        }
    } else {
        match key {
            Key::Char(c) => if c == '`' {
                UiView {
                    show_cmd: true,
                    cursor: CursorState { region: CursorRegion::Command, ..u.cursor },
                    ..u
                }
            } else if c == ' ' {
                UiView { playing: !u.playing, ..u }
            } else if c == 's' {
                jumped(u, CursorRegion::Sequencer)
            } else if c == 'p' {
                in_region(u, CursorRegion::Pattern)
            } else if c == 'i' {
                in_region(u, CursorRegion::SideInfo)
            } else {
                u
            },
            Key::Left => if horizontal_region(u.cursor.region) && u.cursor.col > 0 {
                UiView { cursor: CursorState { col: (u.cursor.col - 1) as usize, ..u.cursor }, ..u }
            } else {
                u
            },
            Key::Right => if horizontal_region(u.cursor.region) {
                UiView { cursor: CursorState { col: (u.cursor.col + 1) as usize, ..u.cursor }, ..u }
            } else {
                u
            },
            Key::Up => if u.cursor.region == CursorRegion::Pattern && u.cursor.row > 0 {
                UiView { cursor: CursorState { row: (u.cursor.row - 1) as usize, ..u.cursor }, ..u }
            } else {
                u
            },
            Key::Down => if u.cursor.region == CursorRegion::Pattern {
                UiView { cursor: cursor_down(u.cursor, pats[u.pattern as int].len() as int), ..u }
            } else {
                u
            },
            Key::F(n) => if n == 1 {
                jumped(u, CursorRegion::Sequencer)
            } else if n == 2 {
                jumped(u, CursorRegion::SideInfo)
            } else {
                u
            },
            Key::Enter => opened_command(u),
            _ => u,
        }
    }
}

/// Whether `key` types into the pattern: a character that is no command,
/// with the cursor in the pattern and the current pattern existing.
pub open spec fn enters_note(pats: Seq<Seq<Seq<Note>>>, u: UiView, key: Key) -> bool {
    &&& !u.show_cmd
    &&& key matches Key::Char(c) && !is_command_char(c)
    &&& u.cursor.region == CursorRegion::Pattern
    &&& u.pattern < pats.len()
}

/// The note that typing `c` leaves in a cell that held `n`: the keys of the
/// bottom row set a pitch from C4 up to B4 (the rest of the cell stays),
/// `-` clears the cell, `0` makes it a stop cell, other keys leave it.
pub open spec fn typed_note(n: Note, c: char) -> Note {
    if c == 'z' {
        Note { pitch: Some(60), ..n }
    } else if c == 'x' {
        Note { pitch: Some(62), ..n }
    } else if c == 'c' {
        Note { pitch: Some(64), ..n }
    } else if c == 'v' {
        Note { pitch: Some(65), ..n }
    } else if c == 'b' {
        Note { pitch: Some(67), ..n }
    } else if c == 'n' {
        Note { pitch: Some(69), ..n }
    } else if c == 'm' {
        Note { pitch: Some(71), ..n }
    } else if c == '-' {
        empty_note()
    } else if c == '0' {
        stop_note()
    } else {
        n
    }
}

/// The row as note entry sees it: an empty row is first given eight empty
/// cells.
pub open spec fn filled_row(row: Seq<Note>) -> Seq<Note> {
    if row.len() == 0 {
        seq![empty_note(); 8]
    } else {
        row
    }
}

/// `i` clamped to the last index of a sequence of `len` elements (0 when
/// there are none).
pub open spec fn clamp_index(i: int, len: int) -> int {
    if i < len - 1 {
        i
    } else if len > 0 {
        len - 1
    } else {
        0
    }
}

/// The patterns after `key`: only note entry changes them, in the cell
/// under the cursor, row and column clamped to the pattern and the row.
pub open spec fn patterns_after_key(pats: Seq<Seq<Seq<Note>>>, u: UiView, key: Key) -> Seq<
    Seq<Seq<Note>>,
> {
    if enters_note(pats, u, key) {
        let c = key->Char_0;
        let rows = pats[u.pattern as int];
        let r = clamp_index(u.cursor.row as int, rows.len() as int);
        let cells = filled_row(rows[r]);
        let k = clamp_index(u.cursor.col as int, cells.len() as int);
        pats.update(u.pattern as int, rows.update(r, cells.update(k, typed_note(cells[k], c))))
    } else {
        pats
    }
}

/// Whether the screen must be redrawn after `key`.
pub open spec fn key_redraws(pats: Seq<Seq<Seq<Note>>>, u: UiView, key: Key) -> bool {
    if u.show_cmd {
        key is Esc || key is Enter || key is Char || key is Backspace
    } else {
        match key {
            Key::Char(c) => is_command_char(c) || enters_note(pats, u, key),
            Key::Left => horizontal_region(u.cursor.region) && u.cursor.col > 0,
            Key::Right => horizontal_region(u.cursor.region),
            Key::Up => u.cursor.region == CursorRegion::Pattern && u.cursor.row > 0,
            Key::Down => u.cursor.region == CursorRegion::Pattern,
            Key::F(n) => n == 1 || n == 2,
            Key::Enter => true,
            _ => false,
        }
    }
}

/// The inputs on which `handle_key` runs without a panic: no cursor
/// arithmetic overflows, and the pattern that Down or note entry reads
/// exists and, for note entry, has a row.
pub open spec fn key_in_bounds(pats: Seq<Seq<Seq<Note>>>, u: UiView, key: Key) -> bool {
    !u.show_cmd ==> match key {
        Key::Right => horizontal_region(u.cursor.region) ==> u.cursor.col < usize::MAX,
        Key::Down => u.cursor.region == CursorRegion::Pattern ==> {
            let c = u.cursor;
            let len = pats[u.pattern as int].len();
            &&& u.pattern < pats.len()
            &&& c.row_start + (VISIBLE_ROWS - 1) <= usize::MAX
            &&& !(c.row < c.row_start + (VISIBLE_ROWS - 1) && c.row + 1 < len) ==> {
                &&& c.row_start + VISIBLE_ROWS <= usize::MAX
                &&& c.row_start + VISIBLE_ROWS < len ==> c.row < usize::MAX
            }
        },
        Key::Char(c) => enters_note(pats, u, key) ==> pats[u.pattern as int].len() > 0,
        _ => true,
    }
}

/// Tests whether `handle_key` can take `key` in this state (see
/// `key_in_bounds`).
pub fn key_within_bounds(song: &Song, ui: &UiState, key: Key) -> (r: bool)
    ensures
        r == key_in_bounds(song.grid(), ui.view(), key),
{
    if ui.show_cmd {
        return true;
    }
    let c = ui.cursor;
    let horizontal = match c.region {
        CursorRegion::Pattern | CursorRegion::Sequencer => true,
        _ => false,
    };
    let in_pattern = match c.region {
        CursorRegion::Pattern => true,
        _ => false,
    };
    match key {
        Key::Right => !horizontal || c.col < usize::MAX,
        Key::Down => {
            if !in_pattern {
                return true;
            }
            if ui.current_pattern_index >= song.patterns.len() {
                return false;
            }
            proof {
                lemma_grid_at(*song, ui.current_pattern_index as int);
            }
            let len = song.patterns[ui.current_pattern_index].rows.len();
            if c.row_start > usize::MAX - (VISIBLE_ROWS - 1) {
                return false;
            }
            if c.row < c.row_start + (VISIBLE_ROWS - 1) && c.row + 1 < len {
                return true;
            }
            if c.row_start > usize::MAX - VISIBLE_ROWS {
                return false;
            }
            !(c.row_start + VISIBLE_ROWS < len) || c.row < usize::MAX
        },
        Key::Char(ch) => {
            let command = ch == '`' || ch == ' ' || ch == 's' || ch == 'p' || ch == 'i';
            if command || !in_pattern || ui.current_pattern_index >= song.patterns.len() {
                return true;
            }
            proof {
                lemma_grid_at(*song, ui.current_pattern_index as int);
            }
            song.patterns[ui.current_pattern_index].rows.len() > 0
        },
        _ => true,
    }
}

fn typed(n: Note, c: char) -> (r: Note)
    ensures
        r == typed_note(n, c),
{
    let mut note = n;
    match c {
        'z' => note.pitch = Some(60),
        'x' => note.pitch = Some(62),
        'c' => note.pitch = Some(64),
        'v' => note.pitch = Some(65),
        'b' => note.pitch = Some(67),
        'n' => note.pitch = Some(69),
        'm' => note.pitch = Some(71),
        '-' => note = Note::empty(),
        '0' => note = Note::stop(),
        _ => {},
    }
    note
}

/// Applies a key press to the song and the editor state, and tells whether
/// the screen must be redrawn.
pub fn handle_key(song: &mut Song, ui: &mut UiState, key: Key) -> (changed: bool)
    requires
        key_in_bounds(old(song).grid(), old(ui).view(), key),
    ensures
        final(ui).view() == ui_after_key(old(song).grid(), old(ui).view(), key),
        final(song).grid() == patterns_after_key(old(song).grid(), old(ui).view(), key),
        changed == key_redraws(old(song).grid(), old(ui).view(), key),
        final(song).order@ == old(song).order@,
        final(song).bpm == old(song).bpm,
        final(song).speed == old(song).speed,
        final(ui).project == old(ui).project,
        final(ui).current_sample_name == old(ui).current_sample_name,
{
    let mut changed = false;
    if ui.show_cmd {
        match key {
            Key::Esc | Key::Enter => {
                ui.show_cmd = false;
                ui.cmd_buffer = String::new();
                ui.cursor.region = CursorRegion::Pattern;
                changed = true;
            },
            Key::Char(c) => {
                push_char(&mut ui.cmd_buffer, c);
                changed = true;
            },
            Key::Backspace => {
                pop_char(&mut ui.cmd_buffer);
                changed = true;
            },
            _ => {},
        }
        return changed;
    }
    match key {
        Key::Char('`') => {
            ui.show_cmd = true;
            ui.cursor.region = CursorRegion::Command;
            changed = true;
        },
        Key::Char(' ') => {
            ui.is_playing = !ui.is_playing;
            changed = true;
        },
        Key::Char('s') => {
            ui.cursor.region = CursorRegion::Sequencer;
            ui.cursor.row = 0;
            ui.cursor.col = 0;
            changed = true;
        },
        Key::Char('p') => {
            ui.cursor.region = CursorRegion::Pattern;
            changed = true;
        },
        Key::Char('i') => {
            ui.cursor.region = CursorRegion::SideInfo;
            changed = true;
        },
        Key::Left => match ui.cursor.region {
            CursorRegion::Pattern | CursorRegion::Sequencer => {
                if ui.cursor.col > 0 {
                    ui.cursor.col = ui.cursor.col - 1;
                    changed = true;
                }
            },
            _ => {},
        },
        Key::Right => match ui.cursor.region {
            CursorRegion::Pattern | CursorRegion::Sequencer => {
                ui.cursor.col = ui.cursor.col + 1;
                changed = true;
            },
            _ => {},
        },
        Key::Up => match ui.cursor.region {
            CursorRegion::Pattern => {
                if ui.cursor.row > 0 {
                    ui.cursor.row = ui.cursor.row - 1;
                    changed = true;
                }
            },
            _ => {},
        },
        Key::Down => match ui.cursor.region {
            CursorRegion::Pattern => {
                proof {
                    lemma_grid_at(*song, ui.current_pattern_index as int);
                }
                let pattern_len = song.patterns[ui.current_pattern_index].rows.len();
                if ui.cursor.row < ui.cursor.row_start + (VISIBLE_ROWS - 1) && ui.cursor.row + 1
                    < pattern_len {
                    ui.cursor.row = ui.cursor.row + 1;
                } else if ui.cursor.row_start + VISIBLE_ROWS < pattern_len {
                    ui.cursor.row_start = ui.cursor.row_start + 1;
                    ui.cursor.row = ui.cursor.row + 1;
                }
                changed = true;
            },
            _ => {},
        },
        Key::Char(c) => {
            if ui.cursor.region == CursorRegion::Pattern && ui.current_pattern_index
                < song.patterns.len() {
                changed = enter_note(song, ui.current_pattern_index, ui.cursor.row, ui.cursor.col, c);
            }
        },
        Key::F(1) => {
            ui.cursor.region = CursorRegion::Sequencer;
            ui.cursor.row = 0;
            ui.cursor.col = 0;
            changed = true;
        },
        Key::F(2) => {
            ui.cursor.region = CursorRegion::SideInfo;
            ui.cursor.row = 0;
            ui.cursor.col = 0;
            changed = true;
        },
        Key::Enter => {
            ui.show_cmd = true;
            ui.cmd_buffer = String::new();
            ui.cursor.region = CursorRegion::Command;
            changed = true;
        },
        _ => {},
    }
    changed
}

/// Note entry: types `c` into the cell at (`row`, `col`) of pattern `p`,
/// both clamped, after giving an empty row eight empty cells.
fn enter_note(song: &mut Song, p: usize, row: usize, col: usize, c: char) -> (changed: bool)
    requires
        p < old(song).patterns@.len(),
        old(song).grid()[p as int].len() > 0,
    ensures
        changed,
        final(song).grid() == ({
            let pats = old(song).grid();
            let rows = pats[p as int];
            let r = clamp_index(row as int, rows.len() as int);
            let cells = filled_row(rows[r]);
            let k = clamp_index(col as int, cells.len() as int);
            pats.update(p as int, rows.update(r, cells.update(k, typed_note(cells[k], c))))
        }),
        final(song).order@ == old(song).order@,
        final(song).bpm == old(song).bpm,
        final(song).speed == old(song).speed,
{
    proof {
        lemma_grid_at(*song, p as int);
    }
    let n_rows = song.patterns[p].rows.len();
    let r = if row < n_rows - 1 { row } else { n_rows - 1 };
    if song.patterns[p].rows[r].channels.len() == 0 {
        let eight = vec![Note::empty(), Note::empty(), Note::empty(), Note::empty(), Note::empty(), Note::empty(), Note::empty(), Note::empty()];
        song.patterns[p].rows[r].channels = eight;
    }
    let n_cells = song.patterns[p].rows[r].channels.len();
    let k = if col < n_cells - 1 { col } else { n_cells - 1 };
    let old_note = song.patterns[p].rows[r].channels[k];
    song.patterns[p].rows[r].channels[k] = typed(old_note, c);
    proof {
        let pats = old(song).grid();
        let rows = pats[p as int];
        let cells = filled_row(rows[r as int]);
        assert(song.patterns@[p as int].rows@[r as int]@ =~= cells.update(k as int, typed_note(cells[k as int], c)));
        assert(song.patterns@[p as int]@ =~= rows.update(r as int, cells.update(k as int, typed_note(cells[k as int], c))));
        assert(song.grid() =~= pats.update(p as int, rows.update(r as int, cells.update(k as int, typed_note(cells[k as int], c)))));
    }
    true
}


/// Keys never add or remove patterns or rows: note entry only rewrites one
/// row's cells.
pub proof fn lemma_key_keeps_shape(pats: Seq<Seq<Seq<Note>>>, u: UiView, key: Key)
    requires
        key_in_bounds(pats, u, key),
    ensures
        same_shape(pats, patterns_after_key(pats, u, key)),
{
}

/// A key that asks for no redraw changed nothing: neither the editor state
/// nor the song.
pub proof fn lemma_no_redraw_no_change(pats: Seq<Seq<Seq<Note>>>, u: UiView, key: Key)
    requires
        !key_redraws(pats, u, key),
    ensures
        ui_after_key(pats, u, key) == u,
        patterns_after_key(pats, u, key) == pats,
{
}

/// What typing a character does to a cell: `z x c v b n m` set the pitch
/// to C4 D4 E4 F4 G4 A4 B4 (MIDI 60 62 64 65 67 69 71) and keep the cell's
/// volume and stop flag; `-` empties the cell; `0` makes it a stop; any
/// other character leaves it.
pub proof fn lemma_typed_note_keys(n: Note, c: char)
    ensures
        c == 'z' ==> typed_note(n, c) == (Note { pitch: Some(60u8), ..n }),
        c == 'x' ==> typed_note(n, c) == (Note { pitch: Some(62u8), ..n }),
        c == 'c' ==> typed_note(n, c) == (Note { pitch: Some(64u8), ..n }),
        c == 'v' ==> typed_note(n, c) == (Note { pitch: Some(65u8), ..n }),
        c == 'b' ==> typed_note(n, c) == (Note { pitch: Some(67u8), ..n }),
        c == 'n' ==> typed_note(n, c) == (Note { pitch: Some(69u8), ..n }),
        c == 'm' ==> typed_note(n, c) == (Note { pitch: Some(71u8), ..n }),
        c == '-' ==> typed_note(n, c) == (Note { pitch: None, volume: 0, stop: false }),
        c == '0' ==> typed_note(n, c) == (Note { pitch: None, volume: 0, stop: true }),
        !(c == 'z' || c == 'x' || c == 'c' || c == 'v' || c == 'b' || c == 'n' || c == 'm' || c
            == '-' || c == '0') ==> typed_note(n, c) == n,
{
}

/// Note entry edits the cell under the cursor when the cursor is on an
/// existing row and channel: that cell becomes the typed note, and every
/// other cell of every pattern stays as it was, as do the shapes.
pub proof fn lemma_note_entry_edits_cell_under_cursor(pats: Seq<Seq<Seq<Note>>>, u: UiView, c: char)
    requires
        !u.show_cmd,
        u.cursor.region == CursorRegion::Pattern,
        !is_command_char(c),
        u.pattern < pats.len(),
        u.cursor.row < pats[u.pattern as int].len(),
        u.cursor.col < pats[u.pattern as int][u.cursor.row as int].len(),
    ensures
        ({
            let q = patterns_after_key(pats, u, Key::Char(c));
            let (p0, r0, k0) = (u.pattern as int, u.cursor.row as int, u.cursor.col as int);
            &&& q.len() == pats.len()
            &&& forall|p: int| 0 <= p < pats.len() ==> #[trigger] q[p].len() == pats[p].len()
            &&& forall|p: int, r: int|
                0 <= p < pats.len() && 0 <= r < pats[p].len() ==> #[trigger] q[p][r].len()
                    == pats[p][r].len()
            &&& q[p0][r0][k0] == typed_note(pats[p0][r0][k0], c)
            &&& forall|p: int, r: int, k: int|
                0 <= p < pats.len() && 0 <= r < pats[p].len() && 0 <= k < pats[p][r].len() && !(p
                    == p0 && r == r0 && k == k0) ==> #[trigger] q[p][r][k] == pats[p][r][k]
        }),
{
}

/// Past the last row, or past the last cell of a row that has cells, note
/// entry edits the last row, or its last cell.
pub proof fn lemma_note_entry_clamps_to_the_end(pats: Seq<Seq<Seq<Note>>>, u: UiView, c: char)
    requires
        !u.show_cmd,
        u.cursor.region == CursorRegion::Pattern,
        !is_command_char(c),
        u.pattern < pats.len(),
        pats[u.pattern as int].len() > 0,
    ensures
        ({
            let q = patterns_after_key(pats, u, Key::Char(c));
            let rows = pats[u.pattern as int];
            let r = if u.cursor.row < rows.len() {
                u.cursor.row as int
            } else {
                rows.len() - 1
            };
            let cells = rows[r];
            let k = if u.cursor.col < cells.len() {
                u.cursor.col as int
            } else {
                cells.len() - 1
            };
            cells.len() > 0 ==> q[u.pattern as int][r][k] == typed_note(cells[k], c)
        }),
{
}

/// What each command key does with the command line closed, in terms of
/// the cursor: `s` and F1 put the cursor at row 0, column 0 of the
/// sequencer; F2 at row 0, column 0 of the side panel; `p` and `i` move it
/// to the pattern or the side panel keeping row and column; `` ` `` and
/// Enter open the command line (Enter empties it); space flips playback;
/// Up moves up a row in the pattern unless at row 0.  None of them changes
/// the song.
pub proof fn lemma_command_keys(pats: Seq<Seq<Seq<Note>>>, u: UiView, key: Key)
    requires
        !u.show_cmd,
    ensures
        ({
            let v = ui_after_key(pats, u, key);
            let c = u.cursor;
            &&& (key == Key::Char('s') || key == Key::F(1)) ==> v.cursor == (CursorState {
                region: CursorRegion::Sequencer,
                row: 0,
                col: 0,
                row_start: c.row_start,
            }) && v.show_cmd == u.show_cmd && v.playing == u.playing
            &&& key == Key::F(2) ==> v.cursor == (CursorState {
                region: CursorRegion::SideInfo,
                row: 0,
                col: 0,
                row_start: c.row_start,
            })
            &&& key == Key::Char('p') ==> v.cursor == (CursorState {
                region: CursorRegion::Pattern,
                ..c
            })
            &&& key == Key::Char('i') ==> v.cursor == (CursorState {
                region: CursorRegion::SideInfo,
                ..c
            })
            &&& key == Key::Char('`') ==> v.show_cmd && v.cursor.region == CursorRegion::Command
                && v.cmd == u.cmd
            &&& key == Key::Enter ==> v.show_cmd && v.cursor.region == CursorRegion::Command
                && v.cmd.len() == 0 && v.playing == u.playing
            &&& key == Key::Char(' ') ==> v.playing != u.playing && v.cursor == c && !v.show_cmd
            &&& key == Key::Up && c.region == CursorRegion::Pattern && c.row > 0 ==> v.cursor.row
                == c.row - 1 && v.cursor.col == c.col && v.cursor.row_start == c.row_start
            &&& key == Key::Up && c.region != CursorRegion::Pattern ==> v == u
            &&& is_command_char_key(key) ==> patterns_after_key(pats, u, key) == pats
        }),
{
}

/// Keys that never edit the pattern.
pub open spec fn is_command_char_key(key: Key) -> bool {
    key == Key::Char('s') || key == Key::Char('p') || key == Key::Char('i') || key == Key::Char('`')
        || key == Key::Char(' ') || key == Key::Enter || key is F || key is Up || key is Down
        || key is Left || key is Right
}

/// With the command line open, typed characters are appended to it in
/// order, and no key edits the song or moves the cursor except Esc and
/// Enter, which send the cursor back to the pattern.
pub proof fn lemma_command_line_typing(pats: Seq<Seq<Seq<Note>>>, u: UiView, key: Key)
    requires
        u.show_cmd,
    ensures
        patterns_after_key(pats, u, key) == pats,
        ui_after_key(pats, u, key).playing == u.playing,
        key matches Key::Char(c) ==> ui_after_key(pats, u, key).cmd == u.cmd + seq![c]
            && ui_after_key(pats, u, key).cursor == u.cursor,
        !(key is Esc || key is Enter) ==> ui_after_key(pats, u, key).cursor == u.cursor,
{
    if let Key::Char(c) = key {
        assert(u.cmd.push(c) =~= u.cmd + seq![c]);
    }
}

/// Pressing space twice, with the command line closed, starts and stops
/// playback and leaves the editor as it was.
pub proof fn lemma_space_toggles_back(pats: Seq<Seq<Seq<Note>>>, u: UiView)
    requires
        !u.show_cmd,
    ensures
        ui_after_key(pats, u, Key::Char(' ')).playing == !u.playing,
        ui_after_key(pats, ui_after_key(pats, u, Key::Char(' ')), Key::Char(' ')) == u,
{
}

/// On the command line, Backspace takes back the character just typed.
pub proof fn lemma_backspace_undoes_typing(pats: Seq<Seq<Seq<Note>>>, u: UiView, c: char)
    requires
        u.show_cmd,
    ensures
        ui_after_key(pats, ui_after_key(pats, u, Key::Char(c)), Key::Backspace) == u,
{
    assert(u.cmd.push(c).drop_last() =~= u.cmd);
}

/// Esc, and Enter, close the command line: it is hidden and empty, and the
/// cursor is back in the pattern.
pub proof fn lemma_command_line_closes(pats: Seq<Seq<Seq<Note>>>, u: UiView, key: Key)
    requires
        u.show_cmd,
        key is Esc || key is Enter,
    ensures
        !ui_after_key(pats, u, key).show_cmd,
        ui_after_key(pats, u, key).cmd.len() == 0,
        ui_after_key(pats, u, key).cursor.region == CursorRegion::Pattern,
{
}

/// In the pattern and the sequencer, Left takes back a step Right.
pub proof fn lemma_left_undoes_right(pats: Seq<Seq<Seq<Note>>>, u: UiView)
    requires
        !u.show_cmd,
        horizontal_region(u.cursor.region),
        u.cursor.col < usize::MAX,
    ensures
        ui_after_key(pats, ui_after_key(pats, u, Key::Right), Key::Left) == u,
{
}

/// Down in the pattern, with the cursor in the window and on a row of the
/// pattern, moves the cursor to the next row if there is one (scrolling the
/// window when the cursor is at its bottom), keeps it in the window and on
/// the pattern, and leaves the song alone.  The pattern's length is bounded
/// as a vector's is, so no cursor arithmetic overflows.
pub proof fn lemma_down_moves_within_pattern(pats: Seq<Seq<Seq<Note>>>, u: UiView)
    requires
        !u.show_cmd,
        u.cursor.region == CursorRegion::Pattern,
        u.pattern < pats.len(),
        pats[u.pattern as int].len() + VISIBLE_ROWS <= usize::MAX,
        u.cursor.row_start <= u.cursor.row < u.cursor.row_start + VISIBLE_ROWS,
        u.cursor.row < pats[u.pattern as int].len(),
    ensures
        key_in_bounds(pats, u, Key::Down),
        ({
            let n = pats[u.pattern as int].len();
            let c = ui_after_key(pats, u, Key::Down).cursor;
            &&& c.row_start <= c.row < c.row_start + VISIBLE_ROWS
            &&& c.row < n
            &&& c.row == if u.cursor.row + 1 < n {
                u.cursor.row + 1
            } else {
                u.cursor.row as int
            }
        }),
        key_redraws(pats, u, Key::Down),
        patterns_after_key(pats, u, Key::Down) == pats,
{
}

/// The cursor never goes below the window of visible rows: every key keeps
/// the cursor row at most `VISIBLE_ROWS - 1` rows past the window's start.
pub proof fn lemma_cursor_stays_in_window(pats: Seq<Seq<Seq<Note>>>, u: UiView, key: Key)
    requires
        key_in_bounds(pats, u, key),
        u.cursor.row <= u.cursor.row_start + (VISIBLE_ROWS - 1),
    ensures
        ui_after_key(pats, u, key).cursor.row <= ui_after_key(pats, u, key).cursor.row_start + (
        VISIBLE_ROWS - 1),
{
}

/// The cursor never leaves the current pattern's rows: with the cursor in
/// the window and on a row of the pattern, every key keeps it on a row of
/// the pattern (the keys never change the number of rows).
pub proof fn lemma_cursor_stays_in_pattern(pats: Seq<Seq<Seq<Note>>>, u: UiView, key: Key)
    requires
        key_in_bounds(pats, u, key),
        u.pattern < pats.len(),
        u.cursor.row <= u.cursor.row_start + (VISIBLE_ROWS - 1),
        u.cursor.row < pats[u.pattern as int].len(),
    ensures
        ui_after_key(pats, u, key).pattern == u.pattern,
        ui_after_key(pats, u, key).cursor.row < patterns_after_key(pats, u, key)[u.pattern as int].len(),
{
}

} // verus!
