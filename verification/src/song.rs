//! Pattern data of a song: notes, rows, patterns and the play order.

use vstd::prelude::*;

verus! {

/// One cell of a pattern row.
#[derive(Clone, Copy, Debug, PartialEq, Eq, Structural)]
pub struct Note {
    /// MIDI note number; `None` is an empty cell.
    pub pitch: Option<u8>,
    /// Loudness in percent of full scale (0 to 100).
    pub volume: u8,
    /// A stop cell silences its channel.
    pub stop: bool,
}

impl Note {
    /// An empty cell: no pitch, silent, no stop.
    pub fn empty() -> (n: Note)
        ensures
            n == empty_note(),
    {
        Note { pitch: None, volume: 0, stop: false }
    }

    /// A stop cell: no pitch, silent, stop set.
    pub fn stop() -> (n: Note)
        ensures
            n == stop_note(),
    {
        Note { pitch: None, volume: 0, stop: true }
    }
}

pub open spec fn empty_note() -> Note {
    Note { pitch: None, volume: 0, stop: false }
}

pub open spec fn stop_note() -> Note {
    Note { pitch: None, volume: 0, stop: true }
}

/// One row of a pattern: a note for each channel.
#[derive(Clone, Debug)]
pub struct Row {
    pub channels: Vec<Note>,
}

impl View for Row {
    type V = Seq<Note>;

    open spec fn view(&self) -> Seq<Note> {
        self.channels@
    }
}

/// A pattern: rows played from top to bottom.
#[derive(Clone, Debug)]
pub struct Pattern {
    pub rows: Vec<Row>,
}

impl View for Pattern {
    type V = Seq<Seq<Note>>;

    open spec fn view(&self) -> Seq<Seq<Note>> {
        self.rows@.map_values(|r: Row| r@)
    }
}

/// A song: its patterns, the order in which they play, its tempo and the
/// number of clock ticks that each row lasts.
#[derive(Clone, Debug)]
pub struct Song {
    pub patterns: Vec<Pattern>,
    /// Indices into `patterns`, in play order.
    pub order: Vec<usize>,
    /// Beats per minute.
    pub bpm: u32,
    /// Clock ticks per row.
    pub speed: u32,
}

impl Song {
    /// The patterns as nested sequences: pattern, row, channel.
    pub open spec fn grid(&self) -> Seq<Seq<Seq<Note>>> {
        self.patterns@.map_values(|p: Pattern| p@)
    }

    /// A song that can be played: the order is not empty, and names only
    /// patterns that exist and have at least one row.
    pub open spec fn playable(&self) -> bool {
        &&& self.order@.len() > 0
        &&& forall|i: int|
            0 <= i < self.order@.len() ==> #[trigger] self.order@[i] < self.patterns@.len()
                && self.grid()[self.order@[i] as int].len() > 0
    }

    /// Tests whether the song can be played.
    pub fn is_playable(&self) -> (r: bool)
        ensures
            r == self.playable(),
    {
        if self.order.len() == 0 {
            return false;
        }
        let mut i: usize = 0;
        while i < self.order.len()
            invariant
                i <= self.order@.len(),
                forall|k: int|
                    0 <= k < i ==> #[trigger] self.order@[k] < self.patterns@.len()
                        && self.grid()[self.order@[k] as int].len() > 0,
            decreases self.order@.len() - i,
        {
            let p = self.order[i];
            if p >= self.patterns.len() {
                return false;
            }
            proof {
                lemma_grid_at(*self, p as int);
            }
            if self.patterns[p].rows.len() == 0 {
                return false;
            }
            i = i + 1;
        }
        true
    }
}

/// The nested view of a song unfolds to the views of its vectors.
pub proof fn lemma_grid_at(song: Song, p: int)
    requires
        0 <= p < song.patterns@.len(),
    ensures
        song.grid().len() == song.patterns@.len(),
        song.grid()[p] == song.patterns@[p]@,
        song.grid()[p].len() == song.patterns@[p].rows@.len(),
        forall|r: int|
            0 <= r < song.grid()[p].len() ==> #[trigger] song.grid()[p][r]
                == song.patterns@[p].rows@[r]@,
{
}

/// The same shape: the same number of patterns, each with the same number
/// of rows.
pub open spec fn same_shape(a: Seq<Seq<Seq<Note>>>, b: Seq<Seq<Seq<Note>>>) -> bool {
    &&& a.len() == b.len()
    &&& forall|p: int| 0 <= p < a.len() ==> #[trigger] a[p].len() == b[p].len()
}

/// Songs of the same shape, with the same order, are playable together.
pub proof fn lemma_same_shape_playable(a: Song, b: Song)
    requires
        a.playable(),
        same_shape(a.grid(), b.grid()),
        a.order@ == b.order@,
    ensures
        b.playable(),
{
    assert forall|i: int| 0 <= i < b.order@.len() implies #[trigger] b.order@[i] < b.patterns@.len()
        && b.grid()[b.order@[i] as int].len() > 0 by {
        assert(a.order@[i] == b.order@[i]);
        assert(a.grid()[a.order@[i] as int].len() > 0);
    }
}

} // verus!
