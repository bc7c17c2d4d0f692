//! The editor screen as text: note cells, the order line, the pattern rows
//! with the side panel, and the status lines.

use crate::playback::Tracker;
use crate::song::{lemma_grid_at, Note, Row, Song};
use crate::text::{
    bracketed, decimal, digit_char, highlight, push_char, push_decimal, push_signed_decimal, signed_decimal,
};
use crate::ui::{CursorRegion, CursorState, UiState, VISIBLE_ROWS};
use vstd::prelude::*;
use vstd::string::*;

verus! {

/// The name of note `n` of the octave (0 is C, 11 is B), with sharps.
pub open spec fn note_name(n: nat) -> Seq<char> {
    if n == 0 {
        seq!['C']
    } else if n == 1 {
        seq!['C', '#']
    } else if n == 2 {
        seq!['D']
    } else if n == 3 {
        seq!['D', '#']
    } else if n == 4 {
        seq!['E']
    } else if n == 5 {
        seq!['F']
    } else if n == 6 {
        seq!['F', '#']
    } else if n == 7 {
        seq!['G']
    } else if n == 8 {
        seq!['G', '#']
    } else if n == 9 {
        seq!['A']
    } else if n == 10 {
        seq!['A', '#']
    } else {
        seq!['B']
    }
}

/// `s` fitted to three characters: padded on the right with spaces when
/// shorter, cut after the third character when longer.
pub open spec fn fit3(s: Seq<char>) -> Seq<char> {
    if s.len() < 3 {
        s + Seq::new((3 - s.len()) as nat, |i: int| ' ')
    } else {
        s.take(3)
    }
}

/// The written pitch of MIDI note `p`: note name and octave, where MIDI 60
/// is C4.
pub open spec fn pitch_text(p: u8) -> Seq<char> {
    note_name((p % 12) as nat) + signed_decimal(p / 12 - 1)
}

/// How a pattern cell is drawn, always six characters: `======` for a
/// stop, `......` when empty, else the written pitch fitted to three
/// characters and the channel `C01`.
pub open spec fn note_cell(n: Note) -> Seq<char> {
    if n.stop {
        seq!['='; 6]
    } else {
        match n.pitch {
            Some(p) => fit3(pitch_text(p)) + seq!['C', '0', '1'],
            None => seq!['.'; 6],
        }
    }
}

fn push_note_name(s: &mut String, n: u8)
    requires
        n < 12,
    ensures
        final(s)@ == old(s)@ + note_name(n as nat),
{
    let (letter, sharp) = match n {
        0 => ('C', false),
        1 => ('C', true),
        2 => ('D', false),
        3 => ('D', true),
        4 => ('E', false),
        5 => ('F', false),
        6 => ('F', true),
        7 => ('G', false),
        8 => ('G', true),
        9 => ('A', false),
        10 => ('A', true),
        _ => ('B', false),
    };
    push_char(s, letter);
    if sharp {
        push_char(s, '#');
    }
    assert(final(s)@ =~= old(s)@ + note_name(n as nat));
}

fn push_repeated(s: &mut String, c: char, n: usize)
    ensures
        final(s)@ == old(s)@ + Seq::new(n as nat, |i: int| c),
{
    let mut i: usize = 0;
    while i < n
        invariant
            i <= n,
            s@ == old(s)@ + Seq::new(i as nat, |k: int| c),
        decreases n - i,
    {
        push_char(s, c);
        i = i + 1;
        assert(s@ =~= old(s)@ + Seq::new(i as nat, |k: int| c));
    }
}

/// Draws a note as a six-character cell such as `A#1C01`, `......` or
/// `======`; a written pitch longer than three characters (`C#-1`, `C#10`)
/// keeps its first three.
pub fn format_note_cell(note: &Note) -> (r: String)
    ensures
        r@ == note_cell(*note),
{
    let mut s = String::new();
    if note.stop {
        push_repeated(&mut s, '=', 6);
        assert(s@ =~= seq!['='; 6]);
        return s;
    }
    match note.pitch {
        Some(p) => {
            let mut t = String::new();
            push_note_name(&mut t, p % 12);
            let octave: i64 = (p / 12) as i64 - 1;
            push_signed_decimal(&mut t, octave);
            let len = t.as_str().unicode_len();
            if len < 3 {
                s.append(t.as_str());
                push_repeated(&mut s, ' ', 3 - len);
            } else {
                s.append(t.as_str().substring_char(0, 3));
            }
            assert(s@ =~= fit3(pitch_text(p)));
            push_char(&mut s, 'C');
            push_char(&mut s, '0');
            push_char(&mut s, '1');
            assert(s@ =~= note_cell(*note));
            s
        },
        None => {
            push_repeated(&mut s, '.', 6);
            assert(s@ =~= seq!['.'; 6]);
            s
        },
    }
}

/// The note names of the octave, in order from C: a pitch `p` is named by
/// entry `p % 12` of C, C#, D, D#, E, F, F#, G, G#, A, A#, B.  The sharps
/// are exactly the black keys 1, 3, 6, 8 and 10, each named as the note
/// below it followed by `#`.
pub proof fn lemma_note_names(n: nat)
    requires
        n < 12,
    ensures
        note_name(n) == seq![
            seq!['C'],
            seq!['C', '#'],
            seq!['D'],
            seq!['D', '#'],
            seq!['E'],
            seq!['F'],
            seq!['F', '#'],
            seq!['G'],
            seq!['G', '#'],
            seq!['A'],
            seq!['A', '#'],
            seq!['B'],
        ][n as int],
        (n == 1 || n == 3 || n == 6 || n == 8 || n == 10) ==> note_name(n) == note_name(
            (n - 1) as nat,
        ).push('#'),
        !(n == 1 || n == 3 || n == 6 || n == 8 || n == 10) ==> note_name(n).len() == 1,
{
}

/// A pitch of octaves 0 to 8 (MIDI 12 to 119) is drawn as its note name,
/// the octave digit (MIDI 60 is octave 4), a space after a natural note,
/// and the channel `C01`: MIDI 62 is `D4 C01`, MIDI 61 is `C#4C01`.
pub proof fn lemma_pitch_cell(n: Note)
    requires
        !n.stop,
        n.pitch is Some,
        12 <= n.pitch->0 <= 119,
    ensures
        ({
            let p = n.pitch->0;
            let name = note_name((p % 12) as nat);
            let octave = digit_char((p / 12 - 1) as nat);
            &&& name.len() == 1 ==> note_cell(n) == name + seq![octave, ' ', 'C', '0', '1']
            &&& name.len() == 2 ==> note_cell(n) == name + seq![octave, 'C', '0', '1']
        }),
{
    let p = n.pitch->0;
    lemma_note_names((p % 12) as nat);
    let t = pitch_text(p);
    assert(signed_decimal(p / 12 - 1) == seq![digit_char((p / 12 - 1) as nat)]);
    assert(fit3(t) =~= t + Seq::new((3 - t.len()) as nat, |i: int| ' '));
    let name = note_name((p % 12) as nat);
    let octave = digit_char((p / 12 - 1) as nat);
    if name.len() == 1 {
        assert(note_cell(n) =~= name + seq![octave, ' ', 'C', '0', '1']);
    } else {
        assert(note_cell(n) =~= name + seq![octave, 'C', '0', '1']);
    }
}

/// Every cell is six characters wide.
pub proof fn lemma_note_cell_width(n: Note)
    ensures
        note_cell(n).len() == 6,
{
}

/// The text drawn highlighted, in square brackets, when `selected`, else as
/// it is.
pub open spec fn mark(s: Seq<char>, selected: bool) -> Seq<char> {
    if selected {
        bracketed(s)
    } else {
        s
    }
}

/// The label of an order entry: the pattern number, counted from 1, in
/// brackets.
pub open spec fn order_label(p: usize) -> Seq<char> {
    seq!['['] + decimal((p + 1) as nat) + seq![']']
}

/// The cursor is on order entry `i`.
pub open spec fn on_order(c: CursorState, i: int) -> bool {
    c.region == CursorRegion::Sequencer && c.col == i
}

/// The cursor is on channel `ch` of pattern row `row`.
pub open spec fn on_cell(c: CursorState, row: int, ch: int) -> bool {
    c.region == CursorRegion::Pattern && c.row == row && c.col == ch
}

/// The cursor is on line `rel` of the side panel.
pub open spec fn on_side(c: CursorState, rel: int) -> bool {
    c.region == CursorRegion::SideInfo && c.row == rel
}

/// The first `n` labels of the order line.
pub open spec fn order_labels(order: Seq<usize>, n: nat, c: CursorState) -> Seq<char>
    decreases n,
{
    if n == 0 {
        Seq::empty()
    } else {
        order_labels(order, (n - 1) as nat, c) + mark(order_label(order[n - 1]), on_order(c, n - 1))
    }
}

/// Cell `ch` of a row as drawn; channels beyond the row are empty.
pub open spec fn grid_cell(row: Seq<Note>, ch: int) -> Seq<char> {
    if ch < row.len() {
        note_cell(row[ch])
    } else {
        seq!['.'; 6]
    }
}

/// The first `n` cells of pattern row `row_idx`.
pub open spec fn row_cells(row: Seq<Note>, row_idx: int, c: CursorState, n: nat) -> Seq<char>
    decreases n,
{
    if n == 0 {
        Seq::empty()
    } else {
        row_cells(row, row_idx, c, (n - 1) as nat) + mark(
            grid_cell(row, n - 1),
            on_cell(c, row_idx, n - 1),
        )
    }
}

/// The name on line `rel` of the side panel.
pub open spec fn side_name(rel: int) -> Seq<char> {
    if rel == 0 {
        "Sample:"@
    } else if rel == 1 {
        "Autostep:"@
    } else if rel == 2 {
        "PPQ:"@
    } else {
        "BPM:"@
    }
}

/// A side panel name: highlighted under the cursor, else after a space.
pub open spec fn side_label(rel: int, selected: bool) -> Seq<char> {
    if selected {
        bracketed(side_name(rel))
    } else {
        " "@ + side_name(rel)
    }
}

/// Line `rel` of the side panel, beside the pattern rows: the sample, the
/// autostep, the PPQ and the tempo, then nothing.
pub open spec fn side_line(rel: int, c: CursorState, ui: UiState, bpm: u32) -> Seq<char> {
    if rel < 4 {
        let value = if rel == 0 {
            ui.current_sample_name@
        } else if rel == 1 {
            decimal(ui.project.autostep as nat)
        } else if rel == 2 {
            decimal(ui.project.ppq as nat)
        } else {
            decimal(bpm as nat)
        };
        side_label(rel, on_side(c, rel)) + " "@ + value + "\n"@
    } else {
        "\n"@
    }
}

/// Nine cells of pattern row `idx`, then the side panel line.
pub open spec fn row_line(
    rows: Seq<Seq<Note>>,
    idx: int,
    start: int,
    c: CursorState,
    ui: UiState,
    bpm: u32,
) -> Seq<char> {
    row_cells(rows[idx], idx, c, 9) + side_line(idx - start, c, ui, bpm)
}

/// The lines of pattern rows `start` to `start + n - 1`.
pub open spec fn rows_block(
    rows: Seq<Seq<Note>>,
    start: int,
    n: nat,
    c: CursorState,
    ui: UiState,
    bpm: u32,
) -> Seq<char>
    decreases n,
{
    if n == 0 {
        Seq::empty()
    } else {
        rows_block(rows, start, (n - 1) as nat, c, ui, bpm) + row_line(
            rows,
            start + n - 1,
            start,
            c,
            ui,
            bpm,
        )
    }
}

/// The row after the last one shown: the window of `VISIBLE_ROWS` rows,
/// cut at the pattern's end.
pub open spec fn window_end(start: int, len: int) -> int {
    if start + VISIBLE_ROWS < len {
        start + VISIBLE_ROWS
    } else {
        len
    }
}

/// The status line: place in the song, tick, and whether it plays.
pub open spec fn status_line(t: Tracker, playing: bool) -> Seq<char> {
    "Order: "@ + decimal(t.current_order as nat) + " Row: "@ + decimal(t.current_row as nat)
        + " Tick: "@ + decimal(t.tick as nat) + " | Playing: "@ + (if playing {
        "Yes"@
    } else {
        "No"@
    }) + "\n"@
}

/// The order line writes each order entry's pattern counted from 1, in
/// brackets, and doubles the brackets around the entry under the cursor.
pub proof fn lemma_order_labels_step(order: Seq<usize>, n: nat, c: CursorState)
    requires
        n < order.len(),
    ensures
        !on_order(c, n as int) ==> order_labels(order, n + 1, c) == order_labels(order, n, c)
            + seq!['['] + decimal((order[n as int] + 1) as nat) + seq![']'],
        on_order(c, n as int) ==> order_labels(order, n + 1, c) == order_labels(order, n, c)
            + seq!['[', '['] + decimal((order[n as int] + 1) as nat) + seq![']', ']'],
{
    let d = decimal((order[n as int] + 1) as nat);
    assert(order_labels(order, n + 1, c) == order_labels(order, n, c) + mark(
        order_label(order[n as int]),
        on_order(c, n as int),
    ));
    if on_order(c, n as int) {
        assert(mark(order_label(order[n as int]), true) =~= seq!['[', '['] + d + seq![']', ']']);
        assert(order_labels(order, n + 1, c) =~= order_labels(order, n, c) + seq!['[', '['] + d
            + seq![']', ']']);
    } else {
        assert(order_labels(order, n + 1, c) =~= order_labels(order, n, c) + seq!['['] + d
            + seq![']']);
    }
}

/// The side panel names its lines, from the top, `Sample:`, `Autostep:`,
/// `PPQ:` and `BPM:`; from the fifth line on it is empty.
pub proof fn lemma_side_panel(c: CursorState, ui: UiState, bpm: u32, rel: int)
    ensures
        side_name(0) == seq!['S', 'a', 'm', 'p', 'l', 'e', ':'],
        side_name(1) == seq!['A', 'u', 't', 'o', 's', 't', 'e', 'p', ':'],
        side_name(2) == seq!['P', 'P', 'Q', ':'],
        side_name(3) == seq!['B', 'P', 'M', ':'],
        rel >= 4 ==> side_line(rel, c, ui, bpm) == seq!['\n'],
        0 <= rel < 4 && !on_side(c, rel) ==> side_line(rel, c, ui, bpm).take(
            side_name(rel).len() + 1 as int,
        ) == seq![' '] + side_name(rel),
{
    reveal_strlit("Sample:");
    reveal_strlit("Autostep:");
    reveal_strlit("PPQ:");
    reveal_strlit("BPM:");
    reveal_strlit(" ");
    reveal_strlit("\n");
    assert(side_name(0) =~= seq!['S', 'a', 'm', 'p', 'l', 'e', ':']);
    assert(side_name(1) =~= seq!['A', 'u', 't', 'o', 's', 't', 'e', 'p', ':']);
    assert(side_name(2) =~= seq!['P', 'P', 'Q', ':']);
    assert(side_name(3) =~= seq!['B', 'P', 'M', ':']);
    if rel >= 4 {
        assert(side_line(rel, c, ui, bpm) =~= seq!['\n']);
    }
    if 0 <= rel < 4 && !on_side(c, rel) {
        let l = side_line(rel, c, ui, bpm);
        assert(l.take(side_name(rel).len() + 1 as int) =~= seq![' '] + side_name(rel));
    }
}

/// The status line reports the tracker's place: its order position after
/// `Order: `, its row after ` Row: `, its tick after ` Tick: `, and
/// whether the editor plays.
pub proof fn lemma_status_line_reports_place(t: Tracker, playing: bool)
    ensures
        status_line(t, playing) == "Order: "@ + decimal(t.current_order as nat) + " Row: "@
            + decimal(t.current_row as nat) + " Tick: "@ + decimal(t.tick as nat) + " | Playing: "@
            + (if playing {
            "Yes"@
        } else {
            "No"@
        }) + "\n"@,
        status_line(t, playing).take(7) == "Order: "@,
{
    reveal_strlit("Order: ");
    let rest = decimal(t.current_order as nat) + " Row: "@ + decimal(t.current_row as nat) + " Tick: "@
        + decimal(t.tick as nat) + " | Playing: "@ + (if playing {
        "Yes"@
    } else {
        "No"@
    }) + "\n"@;
    assert(status_line(t, playing) =~= "Order: "@ + rest);
    assert(("Order: "@ + rest).take(7) =~= "Order: "@);
}

/// The screen shows the status line, for the editor's play state, right
/// before the command line (or at the end when the command line is
/// closed).
pub proof fn lemma_screen_shows_status(song: Song, ui: UiState, t: Tracker)
    ensures
        ({
            let sc = screen(song, ui, t);
            let tail: Seq<char> = if ui.show_cmd {
                "CMD: "@ + ui.cmd_buffer@
            } else {
                Seq::empty()
            };
            let st = status_line(t, ui.is_playing);
            &&& sc.len() >= st.len() + tail.len()
            &&& sc.subrange(sc.len() - tail.len() - st.len(), sc.len() - tail.len()) == st
        }),
{
    let sc = screen(song, ui, t);
    let tail: Seq<char> = if ui.show_cmd {
        "CMD: "@ + ui.cmd_buffer@
    } else {
        Seq::empty()
    };
    let st = status_line(t, ui.is_playing);
    let rows = song.grid()[ui.current_pattern_index as int];
    let d: Seq<char> = if window_end(ui.cursor.row_start as int, rows.len() as int) < rows.len() {
        "\\/\\/\\/\n"@
    } else {
        Seq::empty()
    };
    let pre = screen_head(song, ui) + screen_body(song, ui) + d;
    assert(sc =~= pre + st + tail);
    assert(sc.subrange(sc.len() - tail.len() - st.len(), sc.len() - tail.len()) =~= st);
}

/// The rows that the pattern window shows: from the window's first row,
/// `VISIBLE_ROWS` of them, cut at the pattern's end.
pub open spec fn shown_rows(start: int, len: int) -> nat {
    let end = window_end(start, len);
    if end > start {
        (end - start) as nat
    } else {
        0
    }
}

/// The title line, after the sequence that clears the terminal.
pub open spec fn title_text(ui: UiState) -> Seq<char> {
    "\x1B[2J\x1B[H"@ + ui.project.name@ + " - "@ + ui.project.author@ + " - EXPGSTracker\n"@
}

/// The order line: the order labels and the current pattern's number.
pub open spec fn order_line(song: Song, ui: UiState) -> Seq<char> {
    order_labels(song.order@, song.order@.len(), ui.cursor) + " |Pattern: "@ + decimal(
        (ui.current_pattern_index + 1) as nat,
    ) + "\n"@
}

/// The rule, the track header, and the up arrow when the window is
/// scrolled.
pub open spec fn head_rule(ui: UiState) -> Seq<char> {
    "--------------------------------------------------------------------\n"@
        + "TRACK1|TRACK2|TRACK3|TRACK4|TRACK5|TRACK6|TRACK7|TRACK8|INFO:\n"@ + (if ui.cursor.row_start
        > 0 {
        "^^^^\n"@
    } else {
        Seq::empty()
    })
}

/// The window never shows more than `VISIBLE_ROWS` rows, nor rows past the
/// pattern's end.
pub proof fn lemma_window_bounds(start: int, len: int)
    requires
        0 <= start,
        0 <= len,
    ensures
        shown_rows(start, len) <= VISIBLE_ROWS,
        start + shown_rows(start, len) <= len || shown_rows(start, len) == 0,
{
}

/// The top of the screen: title, order line, rule, track header, and the
/// up arrow when the window is scrolled.
pub open spec fn screen_head(song: Song, ui: UiState) -> Seq<char> {
    title_text(ui) + order_line(song, ui) + head_rule(ui)
}

/// The pattern rows in the window, each with its side panel line.
pub open spec fn screen_body(song: Song, ui: UiState) -> Seq<char> {
    let rows = song.grid()[ui.current_pattern_index as int];
    let start = ui.cursor.row_start as int;
    rows_block(rows, start, shown_rows(start, rows.len() as int), ui.cursor, ui, song.bpm)
}

/// The bottom of the screen: the down arrow when rows follow the window,
/// the status line, and the command line when it is open.
pub open spec fn screen_foot(song: Song, ui: UiState, t: Tracker) -> Seq<char> {
    let rows = song.grid()[ui.current_pattern_index as int];
    (if window_end(ui.cursor.row_start as int, rows.len() as int) < rows.len() {
        "\\/\\/\\/\n"@
    } else {
        Seq::empty()
    }) + status_line(t, ui.is_playing) + (if ui.show_cmd {
        "CMD: "@ + ui.cmd_buffer@
    } else {
        Seq::empty()
    })
}

/// The whole editor screen; the text under the cursor, where the screen
/// shows it, is highlighted.
pub open spec fn screen(song: Song, ui: UiState, t: Tracker) -> Seq<char> {
    screen_head(song, ui) + screen_body(song, ui) + screen_foot(song, ui, t)
}

fn order_label_text(p: usize) -> (r: String)
    requires
        p < usize::MAX,
    ensures
        r@ == order_label(p),
{
    let mut s = String::new();
    push_char(&mut s, '[');
    push_decimal(&mut s, (p + 1) as u64);
    push_char(&mut s, ']');
    assert(s@ =~= order_label(p));
    s
}

fn grid_cell_text(row: &Row, ch: usize) -> (r: String)
    ensures
        r@ == grid_cell(row@, ch as int),
{
    if ch < row.channels.len() {
        format_note_cell(&row.channels[ch])
    } else {
        let mut s = String::new();
        push_repeated(&mut s, '.', 6);
        assert(s@ =~= seq!['.'; 6]);
        s
    }
}

fn side_name_text(rel: usize) -> (r: String)
    ensures
        r@ == side_name(rel as int),
{
    if rel == 0 {
        String::from_str("Sample:")
    } else if rel == 1 {
        String::from_str("Autostep:")
    } else if rel == 2 {
        String::from_str("PPQ:")
    } else {
        String::from_str("BPM:")
    }
}

fn push_order_labels(s: &mut String, order: &Vec<usize>, c: CursorState)
    requires
        forall|i: int| 0 <= i < order@.len() ==> #[trigger] order@[i] < usize::MAX,
    ensures
        final(s)@ == old(s)@ + order_labels(order@, order@.len(), c),
{
    let mut i: usize = 0;
    while i < order.len()
        invariant
            i <= order@.len(),
            forall|k: int| 0 <= k < order@.len() ==> #[trigger] order@[k] < usize::MAX,
            s@ == old(s)@ + order_labels(order@, i as nat, c),
        decreases order@.len() - i,
    {
        let label = order_label_text(order[i]);
        if c.region == CursorRegion::Sequencer && c.col == i {
            let marked = highlight(label.as_str());
            s.append(marked.as_str());
        } else {
            s.append(label.as_str());
        }
        i = i + 1;
        assert(s@ =~= old(s)@ + order_labels(order@, i as nat, c));
    }
}

fn push_row_cells(s: &mut String, row: &Row, row_idx: usize, c: CursorState)
    ensures
        final(s)@ == old(s)@ + row_cells(row@, row_idx as int, c, 9),
{
    let mut ch: usize = 0;
    while ch < 9
        invariant
            ch <= 9,
            s@ == old(s)@ + row_cells(row@, row_idx as int, c, ch as nat),
        decreases 9 - ch,
    {
        let cell = grid_cell_text(row, ch);
        if c.region == CursorRegion::Pattern && c.row == row_idx && c.col == ch {
            let marked = highlight(cell.as_str());
            s.append(marked.as_str());
        } else {
            s.append(cell.as_str());
        }
        ch = ch + 1;
        assert(s@ =~= old(s)@ + row_cells(row@, row_idx as int, c, ch as nat));
    }
}

fn push_side_line(s: &mut String, rel: usize, c: CursorState, ui: &UiState, bpm: u32)
    ensures
        final(s)@ == old(s)@ + side_line(rel as int, c, *ui, bpm),
{
    if rel < 4 {
        let name = side_name_text(rel);
        if c.region == CursorRegion::SideInfo && c.row == rel {
            let marked = highlight(name.as_str());
            s.append(marked.as_str());
        } else {
            s.append(" ");
            s.append(name.as_str());
        }
        s.append(" ");
        if rel == 0 {
            s.append(ui.current_sample_name.as_str());
        } else if rel == 1 {
            push_decimal(s, ui.project.autostep as u64);
        } else if rel == 2 {
            push_decimal(s, ui.project.ppq as u64);
        } else {
            push_decimal(s, bpm as u64);
        }
        s.append("\n");
        assert(s@ =~= old(s)@ + side_line(rel as int, c, *ui, bpm));
    } else {
        s.append("\n");
    }
}

fn push_title(s: &mut String, ui: &UiState)
    ensures
        final(s)@ == old(s)@ + title_text(*ui),
{
    s.append("\x1B[2J\x1B[H");
    s.append(ui.project.name.as_str());
    s.append(" - ");
    s.append(ui.project.author.as_str());
    s.append(" - EXPGSTracker\n");
    assert(s@ =~= old(s)@ + title_text(*ui));
}

fn push_order_line(s: &mut String, song: &Song, ui: &UiState)
    requires
        ui.current_pattern_index < song.patterns@.len(),
        forall|i: int| 0 <= i < song.order@.len() ==> #[trigger] song.order@[i] < usize::MAX,
    ensures
        final(s)@ == old(s)@ + order_line(*song, *ui),
{
    // Reading the length bounds the pattern index, so its successor fits.
    let _pattern_count = song.patterns.len();
    push_order_labels(s, &song.order, ui.cursor);
    let ghost a = s@;
    s.append(" |Pattern: ");
    push_decimal(s, (ui.current_pattern_index + 1) as u64);
    s.append("\n");
    assert(s@ =~= a + " |Pattern: "@ + decimal((ui.current_pattern_index + 1) as nat) + "\n"@);
    assert(s@ =~= old(s)@ + order_line(*song, *ui));
}

fn push_head_rule(s: &mut String, ui: &UiState)
    ensures
        final(s)@ == old(s)@ + head_rule(*ui),
{
    s.append("--------------------------------------------------------------------\n");
    s.append("TRACK1|TRACK2|TRACK3|TRACK4|TRACK5|TRACK6|TRACK7|TRACK8|INFO:\n");
    if ui.cursor.row_start > 0 {
        s.append("^^^^\n");
    }
    assert(s@ =~= old(s)@ + head_rule(*ui));
}

fn push_screen_head(s: &mut String, song: &Song, ui: &UiState)
    requires
        ui.current_pattern_index < song.patterns@.len(),
        forall|i: int| 0 <= i < song.order@.len() ==> #[trigger] song.order@[i] < usize::MAX,
    ensures
        final(s)@ == old(s)@ + screen_head(*song, *ui),
{
    push_title(s, ui);
    push_order_line(s, song, ui);
    push_head_rule(s, ui);
    assert(s@ =~= old(s)@ + screen_head(*song, *ui));
}

fn push_row_line(s: &mut String, row: &Row, row_idx: usize, start: usize, ui: &UiState, bpm: u32)
    requires
        start <= row_idx,
    ensures
        final(s)@ == old(s)@ + row_cells(row@, row_idx as int, ui.cursor, 9) + side_line(
            row_idx - start,
            ui.cursor,
            *ui,
            bpm,
        ),
{
    push_row_cells(s, row, row_idx, ui.cursor);
    push_side_line(s, row_idx - start, ui.cursor, ui, bpm);
}

#[verifier::rlimit(60)]
fn push_screen_body(s: &mut String, song: &Song, ui: &UiState)
    requires
        ui.current_pattern_index < song.patterns@.len(),
        ui.cursor.row_start + VISIBLE_ROWS <= usize::MAX,
    ensures
        final(s)@ == old(s)@ + screen_body(*song, *ui),
{
    let c = ui.cursor;
    let pidx = ui.current_pattern_index;
    proof {
        lemma_grid_at(*song, pidx as int);
    }
    let pattern = &song.patterns[pidx];
    let ghost rows = song.grid()[pidx as int];
    let n_rows = pattern.rows.len();
    let start = c.row_start;
    let end = if start + VISIBLE_ROWS < n_rows {
        start + VISIBLE_ROWS
    } else {
        n_rows
    };
    let mut row_idx = start;
    while row_idx < end
        invariant
            start <= row_idx,
            row_idx <= end || end < start,
            end < start ==> row_idx == start,
            end == window_end(start as int, n_rows as int),
            end <= n_rows,
            n_rows == rows.len(),
            n_rows == pattern.rows@.len(),
            rows == song.grid()[ui.current_pattern_index as int],
            forall|r: int| 0 <= r < rows.len() ==> #[trigger] rows[r] == pattern.rows@[r]@,
            c == ui.cursor,
            start == c.row_start,
            s@ == old(s)@ + rows_block(rows, start as int, (row_idx - start) as nat, c, *ui, song.bpm),
        decreases end - row_idx,
    {
        push_row_line(s, &pattern.rows[row_idx], row_idx, start, ui, song.bpm);
        row_idx = row_idx + 1;
        assert(s@ =~= old(s)@ + rows_block(rows, start as int, (row_idx - start) as nat, c, *ui, song.bpm));
    }
}

fn push_status_line(s: &mut String, tracker: &Tracker, playing: bool)
    ensures
        final(s)@ == old(s)@ + status_line(*tracker, playing),
{
    s.append("Order: ");
    push_decimal(s, tracker.current_order as u64);
    s.append(" Row: ");
    push_decimal(s, tracker.current_row as u64);
    let ghost a = s@;
    s.append(" Tick: ");
    push_decimal(s, tracker.tick as u64);
    s.append(" | Playing: ");
    if playing {
        s.append("Yes");
    } else {
        s.append("No");
    }
    s.append("\n");
    assert(a =~= old(s)@ + "Order: "@ + decimal(tracker.current_order as nat) + " Row: "@ + decimal(
        tracker.current_row as nat,
    ));
    assert(s@ =~= old(s)@ + status_line(*tracker, playing));
}

fn push_screen_foot(s: &mut String, song: &Song, ui: &UiState, tracker: &Tracker)
    requires
        ui.current_pattern_index < song.patterns@.len(),
        ui.cursor.row_start + VISIBLE_ROWS <= usize::MAX,
    ensures
        final(s)@ == old(s)@ + screen_foot(*song, *ui, *tracker),
{
    proof {
        lemma_grid_at(*song, ui.current_pattern_index as int);
    }
    let n_rows = song.patterns[ui.current_pattern_index].rows.len();
    let start = ui.cursor.row_start;
    let end = if start + VISIBLE_ROWS < n_rows {
        start + VISIBLE_ROWS
    } else {
        n_rows
    };
    if end < n_rows {
        s.append("\\/\\/\\/\n");
    }
    let ghost a = s@;
    push_status_line(s, tracker, ui.is_playing);
    let ghost b = s@;
    if ui.show_cmd {
        s.append("CMD: ");
        s.append(ui.cmd_buffer.as_str());
    }
    proof {
        let rows = song.grid()[ui.current_pattern_index as int];
        let d: Seq<char> = if window_end(start as int, rows.len() as int) < rows.len() {
            "\\/\\/\\/\n"@
        } else {
            Seq::empty()
        };
        assert(a =~= old(s)@ + d);
        let f: Seq<char> = if ui.show_cmd {
            "CMD: "@ + ui.cmd_buffer@
        } else {
            Seq::empty()
        };
        assert(s@ =~= b + f);
        assert(s@ =~= old(s)@ + (d + status_line(*tracker, ui.is_playing) + f));
    }
}

/// The editor screen as the terminal prints it (what `draw_ui` shows).
pub fn draw_ui_text(song: &Song, ui: &UiState, tracker: &Tracker) -> (r: String)
    requires
        ui.current_pattern_index < song.patterns@.len(),
        ui.cursor.row_start + VISIBLE_ROWS <= usize::MAX,
        forall|i: int| 0 <= i < song.order@.len() ==> #[trigger] song.order@[i] < usize::MAX,
    ensures
        r@ == screen(*song, *ui, *tracker),
{
    let mut s = String::new();
    push_screen_head(&mut s, song, ui);
    push_screen_body(&mut s, song, ui);
    push_screen_foot(&mut s, song, ui, tracker);
    assert(s@ =~= screen(*song, *ui, *tracker));
    s
}

} // verus!
