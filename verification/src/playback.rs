//! The playback clock: which row of which pattern plays, and what each
//! channel of the synthesizer is tuned to.

use crate::song::{lemma_grid_at, lemma_same_shape_playable, same_shape, Note, Song};
use crate::ui::{key_in_bounds, lemma_key_keeps_shape, patterns_after_key, Key, UiView};
use vstd::prelude::*;

verus! {

/// What one channel of the square-wave synthesizer plays: the note it is
/// tuned to (`None` is no frequency at all) and its loudness in percent.
/// The waveform's phase is kept by the audio output.
#[derive(Clone, Copy, Debug, PartialEq, Eq, Structural)]
pub struct ChannelState {
    pub pitch: Option<u8>,
    pub volume: u8,
}

/// A channel that is tuned to nothing and silent.
pub open spec fn silent_channel() -> ChannelState {
    ChannelState { pitch: None, volume: 0 }
}

/// A channel after a note is triggered on it: a note with a pitch retunes
/// the channel and sets its volume; a note without one leaves it as it is.
pub open spec fn triggered(ch: ChannelState, note: Note) -> ChannelState {
    match note.pitch {
        Some(p) => ChannelState { pitch: Some(p), volume: note.volume },
        None => ch,
    }
}

/// A channel after a row's note for it is played: a stop cell silences it,
/// a note with a pitch triggers it, an empty cell leaves it alone.
pub open spec fn played(ch: ChannelState, note: Note) -> ChannelState {
    if note.stop {
        silent_channel()
    } else if note.pitch is Some {
        triggered(ch, note)
    } else {
        ch
    }
}

/// The channels after `row` is played: channel `i` takes the row's `i`-th
/// note; channels beyond the row keep their state, and notes beyond the
/// channels are dropped.
pub open spec fn play_row(chs: Seq<ChannelState>, row: Seq<Note>) -> Seq<ChannelState> {
    Seq::new(chs.len(), |i: int| if i < row.len() { played(chs[i], row[i]) } else { chs[i] })
}

impl ChannelState {
    /// A silent channel.
    pub fn new() -> (ch: ChannelState)
        ensures
            ch == silent_channel(),
    {
        ChannelState { pitch: None, volume: 0 }
    }

    /// Retunes the channel to `note` if the note has a pitch.
    pub fn trigger(&mut self, note: Note)
        ensures
            *final(self) == triggered(*old(self), note),
    {
        if let Some(p) = note.pitch {
            self.pitch = Some(p);
            self.volume = note.volume;
        }
    }
}

/// The playback engine: a song, the place in it, the tick counter within
/// the current row, and the channels.
pub struct Tracker {
    pub song: Song,
    /// Index into the song's order.
    pub current_order: usize,
    /// Row within the current pattern.
    pub current_row: usize,
    /// Ticks elapsed within the current row.
    pub tick: u32,
    pub channels: Vec<ChannelState>,
    pub is_playing: bool,
}

/// The place that follows row `row` at order position `ord`: the next row of
/// the same pattern, or the first row of the next pattern in the order,
/// where the order wraps around to its start.
pub open spec fn next_place(song: Song, ord: int, row: int) -> (int, int) {
    let len = song.grid()[song.order@[ord] as int].len();
    if row + 1 >= len {
        ((ord + 1) % (song.order@.len() as int), 0)
    } else {
        (ord, row + 1)
    }
}

/// One clock tick from `a` to `b`: while stopped nothing changes; while
/// playing the tick counter advances within the row, and when it reaches
/// the song's speed it restarts, the place moves to the next row, and that
/// row is played on the channels.
pub open spec fn tick_step(a: Tracker, b: Tracker) -> bool {
    &&& b.song == a.song
    &&& b.is_playing == a.is_playing
    &&& if !a.is_playing {
        b == a
    } else if a.tick + 1 < a.song.speed {
        &&& b.tick == a.tick + 1
        &&& b.current_order == a.current_order
        &&& b.current_row == a.current_row
        &&& b.channels@ == a.channels@
    } else {
        &&& b.tick == 0
        &&& (b.current_order as int, b.current_row as int) == next_place(
            a.song,
            a.current_order as int,
            a.current_row as int,
        )
        &&& b.channels@ == play_row(
            a.channels@,
            b.song.grid()[b.pattern_now()][b.current_row as int],
        )
    }
}

impl Tracker {
    /// Index of the pattern that plays now.
    pub open spec fn pattern_now(&self) -> int {
        self.song.order@[self.current_order as int] as int
    }

    /// The place is inside a playable song.
    pub open spec fn place_ok(&self) -> bool {
        &&& self.song.playable()
        &&& self.current_order < self.song.order@.len()
        &&& self.current_row < self.song.grid()[self.pattern_now()].len()
    }

    /// The playback state is consistent: the place is inside a playable
    /// song, and the tick counter is within the row.
    pub open spec fn wf(&self) -> bool {
        &&& self.place_ok()
        &&& (self.tick == 0 || self.tick < self.song.speed)
    }

    /// A stopped tracker at the start of `song`, with `num_channels` silent
    /// channels.
    pub fn new(song: Song, num_channels: usize) -> (t: Tracker)
        ensures
            t.song == song,
            t.current_order == 0,
            t.current_row == 0,
            t.tick == 0,
            t.channels@ == Seq::new(num_channels as nat, |i: int| silent_channel()),
            !t.is_playing,
            song.playable() ==> t.wf(),
    {
        let mut channels: Vec<ChannelState> = Vec::new();
        let mut i: usize = 0;
        while i < num_channels
            invariant
                i <= num_channels,
                channels@ == Seq::new(i as nat, |k: int| silent_channel()),
            decreases num_channels - i,
        {
            channels.push(ChannelState::new());
            i = i + 1;
            assert(channels@ =~= Seq::new(i as nat, |k: int| silent_channel()));
        }
        proof {
            if song.playable() {
                assert(song.order@[0] < song.patterns@.len());
                assert(song.grid()[song.order@[0] as int].len() > 0);
            }
        }
        Tracker { song, current_order: 0, current_row: 0, tick: 0, channels, is_playing: false }
    }

    /// Moves to the next row (see `next_place`) and plays it on the channels.
    pub fn advance_row(&mut self)
        requires
            old(self).place_ok(),
        ensures
            final(self).place_ok(),
            old(self).wf() ==> final(self).wf(),
            (final(self).current_order as int, final(self).current_row as int) == next_place(
                old(self).song,
                old(self).current_order as int,
                old(self).current_row as int,
            ),
            final(self).channels@ == play_row(
                old(self).channels@,
                final(self).song.grid()[final(self).pattern_now()][final(self).current_row as int],
            ),
            final(self).song == old(self).song,
            final(self).tick == old(self).tick,
            final(self).is_playing == old(self).is_playing,
    {
        let order_len = self.song.order.len();
        let pat_idx = self.song.order[self.current_order];
        proof {
            lemma_grid_at(self.song, pat_idx as int);
        }
        let n_rows = self.song.patterns[pat_idx].rows.len();
        self.current_row = self.current_row + 1;
        if self.current_row >= n_rows {
            self.current_row = 0;
            self.current_order = (self.current_order + 1) % order_len;
        }
        let pat = self.song.order[self.current_order];
        proof {
            lemma_grid_at(self.song, pat as int);
            assert(self.song.grid()[pat as int].len() > 0);
        }
        let ghost chs0 = self.channels@;
        let ghost ord1 = self.current_order;
        let ghost row1 = self.current_row;
        let ghost row_notes = self.song.grid()[pat as int][self.current_row as int];
        let n = self.song.patterns[pat].rows[self.current_row].channels.len();
        assert(row_notes == self.song.patterns@[pat as int].rows@[self.current_row as int]@);
        let mut i: usize = 0;
        while i < n
            invariant
                self.song == old(self).song,
                self.current_order == ord1,
                self.current_row == row1,
                self.tick == old(self).tick,
                self.is_playing == old(self).is_playing,
                pat == self.song.order@[ord1 as int],
                pat < self.song.patterns@.len(),
                self.current_row < self.song.patterns@[pat as int].rows@.len(),
                row_notes == self.song.patterns@[pat as int].rows@[self.current_row as int]@,
                n == row_notes.len(),
                i <= n,
                self.channels@.len() == chs0.len(),
                forall|k: int|
                    0 <= k < chs0.len() ==> #[trigger] self.channels@[k] == (if k < i && k < n {
                        played(chs0[k], row_notes[k])
                    } else {
                        chs0[k]
                    }),
            decreases n - i,
        {
            let note = self.song.patterns[pat].rows[self.current_row].channels[i];
            if i < self.channels.len() {
                if note.stop {
                    self.channels.set(i, ChannelState { pitch: None, volume: 0 });
                } else if note.pitch.is_some() {
                    let mut ch = self.channels[i];
                    ch.trigger(note);
                    self.channels.set(i, ch);
                }
            }
            i = i + 1;
        }
        assert(self.channels@ =~= play_row(chs0, row_notes));
        assert(self.pattern_now() == pat as int);
    }

    /// One clock tick: nothing while stopped; otherwise the tick counter
    /// advances, and when it reaches the song's speed it restarts and the
    /// next row plays.
    pub fn advance_tick(&mut self)
        requires
            old(self).is_playing ==> old(self).wf(),
        ensures
            old(self).wf() ==> final(self).wf(),
            tick_step(*old(self), *final(self)),
    {
        if !self.is_playing {
            return;
        }
        self.tick = self.tick + 1;
        if self.tick >= self.song.speed {
            self.tick = 0;
            self.advance_row();
        }
    }
}


/// What playing a row does to each channel, in terms of the row's cells:
/// the channels keep their number; a stop cell silences its channel (no
/// pitch, volume 0); a cell with a pitch tunes its channel to that pitch at
/// the cell's volume; an empty cell (no pitch, no stop) leaves its channel
/// exactly as it was; channels beyond the row are left as they were.
pub proof fn lemma_play_row_per_channel(chs: Seq<ChannelState>, row: Seq<Note>, i: int)
    requires
        0 <= i < chs.len(),
    ensures
        play_row(chs, row).len() == chs.len(),
        i < row.len() && row[i].stop ==> play_row(chs, row)[i] == (ChannelState {
            pitch: None,
            volume: 0,
        }),
        i < row.len() && !row[i].stop && row[i].pitch is Some ==> play_row(chs, row)[i] == (
        ChannelState { pitch: row[i].pitch, volume: row[i].volume }),
        i < row.len() && !row[i].stop && row[i].pitch is None ==> play_row(chs, row)[i] == chs[i],
        i >= row.len() ==> play_row(chs, row)[i] == chs[i],
{
}

/// Playing a row whose cells are all empty changes no channel.
pub proof fn lemma_empty_row_keeps_channels(chs: Seq<ChannelState>, row: Seq<Note>)
    requires
        forall|i: int| 0 <= i < row.len() ==> !(#[trigger] row[i]).stop && row[i].pitch is None,
    ensures
        play_row(chs, row) == chs,
{
    assert(play_row(chs, row) =~= chs);
}

/// Where playback goes after a row, in terms of the song: the next row of
/// the same pattern while there is one; after a pattern's last row, row 0
/// of the pattern at the next order position, and after the last order
/// position, order position 0.  The new place is always inside the song.
pub proof fn lemma_next_place_walks_the_order(song: Song, ord: int, row: int)
    requires
        song.playable(),
        0 <= ord < song.order@.len(),
        0 <= row < song.grid()[song.order@[ord] as int].len(),
    ensures
        ({
            let rows = song.grid()[song.order@[ord] as int].len();
            let (o2, r2) = next_place(song, ord, row);
            &&& row + 1 < rows ==> o2 == ord && r2 == row + 1
            &&& row + 1 == rows && ord + 1 < song.order@.len() ==> o2 == ord + 1 && r2 == 0
            &&& row + 1 == rows && ord + 1 == song.order@.len() ==> o2 == 0 && r2 == 0
            &&& 0 <= o2 < song.order@.len()
            &&& 0 <= r2 < song.grid()[song.order@[o2] as int].len()
        }),
{
    let len = song.order@.len() as int;
    if ord + 1 < len {
        assert((ord + 1) % len == ord + 1) by (nonlinear_arith)
            requires
                0 <= ord + 1 < len,
        ;
    } else {
        assert((ord + 1) % len == 0) by (nonlinear_arith)
            requires
                ord + 1 == len,
                len > 0,
        ;
    }
    let (o2, r2) = next_place(song, ord, row);
    assert(0 <= o2 < len);
    assert(song.order@[o2] < song.patterns@.len());
}

/// A row lasts `speed` ticks: from the start of a row, playing, the first
/// `speed - 1` ticks keep the place and count up, and tick number `speed`
/// moves to the next row with the counter back at 0.
pub proof fn lemma_row_lasts_speed_ticks(ts: Seq<Tracker>)
    requires
        ts.len() >= 1,
        ts[0].wf(),
        ts[0].is_playing,
        ts[0].tick == 0,
        ts.len() == ts[0].song.speed + 1,
        forall|k: int| 0 <= k < ts.len() - 1 ==> #[trigger] tick_step(ts[k], ts[k + 1]),
    ensures
        forall|k: int|
            0 <= k < ts.len() - 1 ==> {
                &&& #[trigger] ts[k].tick == k
                &&& ts[k].current_order == ts[0].current_order
                &&& ts[k].current_row == ts[0].current_row
            },
        ts.len() > 1 ==> ts.last().tick == 0,
        ts.len() > 1 ==> (ts.last().current_order as int, ts.last().current_row as int) == next_place(
            ts[0].song,
            ts[0].current_order as int,
            ts[0].current_row as int,
        ),
{
    let n = ts.len() - 1;
    assert forall|k: int| 0 <= k < ts.len() - 1 implies {
        &&& #[trigger] ts[k].tick == k
        &&& ts[k].current_order == ts[0].current_order
        &&& ts[k].current_row == ts[0].current_row
    } by {
        lemma_ticks_within_row(ts, k);
    }
    if n > 0 {
        lemma_ticks_within_row(ts, n - 1);
        let j = n - 1;
        assert(tick_step(ts[j], ts[j + 1]));
        assert(ts[j + 1] == ts.last());
    }
}

proof fn lemma_ticks_within_row(ts: Seq<Tracker>, k: int)
    requires
        ts.len() >= 1,
        ts[0].wf(),
        ts[0].is_playing,
        ts[0].tick == 0,
        ts.len() == ts[0].song.speed + 1,
        forall|j: int| 0 <= j < ts.len() - 1 ==> #[trigger] tick_step(ts[j], ts[j + 1]),
        0 <= k < ts.len() - 1,
    ensures
        ts[k].tick == k,
        ts[k].current_order == ts[0].current_order,
        ts[k].current_row == ts[0].current_row,
        ts[k].song == ts[0].song,
        ts[k].is_playing,
    decreases k,
{
    if k > 0 {
        lemma_ticks_within_row(ts, k - 1);
        let j = k - 1;
        assert(tick_step(ts[j], ts[j + 1]));
        assert(ts[j + 1] == ts[k]);
    }
}

/// Editing keeps playback consistent: a key's change to the song (of the
/// same order and speed) leaves a consistent tracker consistent, at the
/// same place.
pub proof fn lemma_key_keeps_playback_consistent(t: Tracker, u: UiView, key: Key, edited: Song)
    requires
        t.wf(),
        key_in_bounds(t.song.grid(), u, key),
        edited.grid() == patterns_after_key(t.song.grid(), u, key),
        edited.order@ == t.song.order@,
        edited.speed == t.song.speed,
    ensures
        (Tracker { song: edited, ..t }).wf(),
{
    lemma_key_keeps_shape(t.song.grid(), u, key);
    lemma_same_shape_playable(t.song, edited);
    let p = t.pattern_now();
    assert(t.song.grid()[p].len() == edited.grid()[p].len());
}

} // verus!
