//! One key press of the tracker program: quit on `q`, otherwise edit, and
//! keep the playback engine playing exactly when the editor says so.

use crate::playback::{lemma_key_keeps_playback_consistent, Tracker};
use crate::ui::{handle_key, key_in_bounds, key_redraws, patterns_after_key, ui_after_key, Key, UiState};
use vstd::prelude::*;

verus! {

/// What a key press asks of the program.
#[derive(Clone, Copy, Debug, PartialEq, Eq, Structural)]
pub enum KeyOutcome {
    /// Leave the program.
    Quit,
    /// The key was handled; redraw the screen when set.
    Handled(bool),
}

/// The key that leaves the tracker.
pub open spec fn is_quit_key(key: Key) -> bool {
    key == Key::Char('q')
}

/// Handles a key press of the tracker program: `q` quits and changes
/// nothing; any other key goes to the editor, and when it starts or stops
/// playback the engine follows and the screen is redrawn.
pub fn on_key_press(tracker: &mut Tracker, ui: &mut UiState, key: Key) -> (r: KeyOutcome)
    requires
        !is_quit_key(key) ==> key_in_bounds(old(tracker).song.grid(), old(ui).view(), key),
    ensures
        is_quit_key(key) ==> r == KeyOutcome::Quit && *final(tracker) == *old(tracker) && *final(ui)
            == *old(ui),
        !is_quit_key(key) ==> {
            &&& final(ui).view() == ui_after_key(old(tracker).song.grid(), old(ui).view(), key)
            &&& final(ui).project == old(ui).project
            &&& final(ui).current_sample_name == old(ui).current_sample_name
            &&& final(tracker).song.grid() == patterns_after_key(
                old(tracker).song.grid(),
                old(ui).view(),
                key,
            )
            &&& final(tracker).song.order@ == old(tracker).song.order@
            &&& final(tracker).song.bpm == old(tracker).song.bpm
            &&& final(tracker).song.speed == old(tracker).song.speed
            &&& final(tracker).is_playing == if final(ui).is_playing != old(ui).is_playing {
                final(ui).is_playing
            } else {
                old(tracker).is_playing
            }
            &&& final(tracker).current_order == old(tracker).current_order
            &&& final(tracker).current_row == old(tracker).current_row
            &&& final(tracker).tick == old(tracker).tick
            &&& final(tracker).channels@ == old(tracker).channels@
            &&& r == KeyOutcome::Handled(
                key_redraws(old(tracker).song.grid(), old(ui).view(), key) || final(ui).is_playing
                    != old(ui).is_playing,
            )
        },
        old(tracker).wf() ==> final(tracker).wf(),
        old(tracker).is_playing == old(ui).is_playing ==> final(tracker).is_playing
            == final(ui).is_playing,
{
    if key == Key::Char('q') {
        return KeyOutcome::Quit;
    }
    let ghost t0 = *tracker;
    let before = ui.is_playing;
    let mut redraw = handle_key(&mut tracker.song, ui, key);
    proof {
        if t0.wf() {
            lemma_key_keeps_playback_consistent(t0, old(ui).view(), key, tracker.song);
        }
    }
    if ui.is_playing != before {
        tracker.is_playing = ui.is_playing;
        redraw = true;
    }
    KeyOutcome::Handled(redraw)
}

} // verus!
