//! The demonstration song that the tracker opens with.

use crate::song::{empty_note, Note, Pattern, Row, Song};
use crate::ui::ProjectMeta;
use vstd::prelude::*;
use vstd::string::*;

verus! {

/// A note of the demonstration song: loudness 80 percent.
pub open spec fn demo_note(pitch: Option<u8>) -> Note {
    Note { pitch, volume: 80, stop: false }
}

/// A three-channel row of the demonstration song.
pub open spec fn demo_row(a: Option<u8>, b: Option<u8>, c: Option<u8>) -> Seq<Note> {
    seq![demo_note(a), demo_note(b), demo_note(c)]
}

/// The demonstration pattern: C4, E4 and G4 one after another, then the
/// chord, then four empty rows.
pub open spec fn demo_pattern() -> Seq<Seq<Note>> {
    let e = seq![empty_note(), empty_note(), empty_note()];
    seq![
        demo_row(Some(60), None, None),
        demo_row(None, Some(64), None),
        demo_row(None, None, Some(67)),
        demo_row(Some(60), Some(64), Some(67)),
        e,
        e,
        e,
        e,
    ]
}

fn make_row(a: Option<u8>, b: Option<u8>, c: Option<u8>) -> (r: Row)
    ensures
        r@ == demo_row(a, b, c),
{
    Row {
        channels: vec![
            Note { pitch: a, volume: 80, stop: false },
            Note { pitch: b, volume: 80, stop: false },
            Note { pitch: c, volume: 80, stop: false },
        ],
    }
}

fn empty_row() -> (r: Row)
    ensures
        r@ == seq![empty_note(), empty_note(), empty_note()],
{
    Row { channels: vec![Note::empty(), Note::empty(), Note::empty()] }
}

/// The demonstration song and its project: one pattern, played eight times
/// at 125 BPM and six ticks per row, by `Jonas`, with eight tracks.
pub fn example_song_and_project() -> (r: (Song, ProjectMeta))
    ensures
        r.0.grid() == seq![demo_pattern()],
        r.0.order@ == seq![0usize; 8],
        r.0.bpm == 125,
        r.0.speed == 6,
        r.0.playable(),
        r.1.name@ == "DemoProject"@,
        r.1.author@ == "Jonas"@,
        r.1.track_names@.map_values(|t: String| t@) == seq![
            "TRK1  "@,
            "TRK2  "@,
            "TRK3  "@,
            "TRK4  "@,
            "TRK5  "@,
            "TRK6  "@,
            "TRK7  "@,
            "TRK8  "@,
        ],
        r.1.autostep == 1,
        r.1.ppq == 96,
{
    let c4 = Some(60u8);
    let e4 = Some(64u8);
    let g4 = Some(67u8);
    let pattern = Pattern {
        rows: vec![
            make_row(c4, None, None),
            make_row(None, e4, None),
            make_row(None, None, g4),
            make_row(c4, e4, g4),
            empty_row(),
            empty_row(),
            empty_row(),
            empty_row(),
        ],
    };
    assert(pattern@ =~= demo_pattern());
    let song = Song { patterns: vec![pattern], order: vec![0, 0, 0, 0, 0, 0, 0, 0], bpm: 125, speed: 6 };
    assert(song.grid() =~= seq![demo_pattern()]);
    assert(song.order@ =~= seq![0usize; 8]);
    let track_names = vec![
        String::from_str("TRK1  "),
        String::from_str("TRK2  "),
        String::from_str("TRK3  "),
        String::from_str("TRK4  "),
        String::from_str("TRK5  "),
        String::from_str("TRK6  "),
        String::from_str("TRK7  "),
        String::from_str("TRK8  "),
    ];
    let project = ProjectMeta {
        name: String::from_str("DemoProject"),
        author: String::from_str("Jonas"),
        track_names,
        autostep: 1,
        ppq: 96,
    };
    assert(project.track_names@.map_values(|t: String| t@) =~= seq![
        "TRK1  "@,
        "TRK2  "@,
        "TRK3  "@,
        "TRK4  "@,
        "TRK5  "@,
        "TRK6  "@,
        "TRK7  "@,
        "TRK8  "@,
    ]);
    (song, project)
}

} // verus!
