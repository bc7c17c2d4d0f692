//! The line commands of the menu program and of its sample editor, and the
//! entry points that are still to be written.

use crate::text::{same_text, trim_text, trimmed};
use vstd::prelude::*;

verus! {

/// A command of the main menu.
#[derive(Clone, Copy, Debug, PartialEq, Eq, Structural)]
pub enum MenuCommand {
    Quit,
    Help,
    Load,
    Sequence,
    Samples,
    Hi,
    Mix,
    Master,
    Export,
    /// A line that names no command.
    Unknown,
}

/// The menu command that a word names.
pub open spec fn menu_word_spec(w: Seq<char>) -> MenuCommand {
    if w == "quit"@ {
        MenuCommand::Quit
    } else if w == "help"@ {
        MenuCommand::Help
    } else if w == "load"@ {
        MenuCommand::Load
    } else if w == "sequence"@ {
        MenuCommand::Sequence
    } else if w == "samples"@ {
        MenuCommand::Samples
    } else if w == "hi"@ {
        MenuCommand::Hi
    } else if w == "mix"@ {
        MenuCommand::Mix
    } else if w == "master"@ {
        MenuCommand::Master
    } else if w == "export"@ {
        MenuCommand::Export
    } else {
        MenuCommand::Unknown
    }
}

/// The menu command that the word `word` names.
pub fn menu_word(word: &str) -> (c: MenuCommand)
    ensures
        c == menu_word_spec(word@),
{
    if same_text(word, "quit") {
        MenuCommand::Quit
    } else if same_text(word, "help") {
        MenuCommand::Help
    } else if same_text(word, "load") {
        MenuCommand::Load
    } else if same_text(word, "sequence") {
        MenuCommand::Sequence
    } else if same_text(word, "samples") {
        MenuCommand::Samples
    } else if same_text(word, "hi") {
        MenuCommand::Hi
    } else if same_text(word, "mix") {
        MenuCommand::Mix
    } else if same_text(word, "master") {
        MenuCommand::Master
    } else if same_text(word, "export") {
        MenuCommand::Export
    } else {
        MenuCommand::Unknown
    }
}

/// The menu command on an input line: the line without surrounding white
/// space names it.
pub fn menu_command(line: &str) -> (c: MenuCommand)
    ensures
        c == menu_word_spec(trimmed(line@)),
{
    menu_word(trim_text(line))
}

/// A command of the sample editor.
#[derive(Clone, Copy, Debug, PartialEq, Eq, Structural)]
pub enum SampleCommand {
    Quit,
    Truncate,
    Repitch,
    TimeStretch,
    ParamEq,
    /// A line that names no command.
    Unknown,
}

/// The sample editor command that a word names.
pub open spec fn sample_word_spec(w: Seq<char>) -> SampleCommand {
    if w == "quit"@ {
        SampleCommand::Quit
    } else if w == "truncate"@ {
        SampleCommand::Truncate
    } else if w == "repitch"@ {
        SampleCommand::Repitch
    } else if w == "time-stretch"@ {
        SampleCommand::TimeStretch
    } else if w == "param-eq"@ {
        SampleCommand::ParamEq
    } else {
        SampleCommand::Unknown
    }
}

/// The sample editor command that the word `word` names.
pub fn sample_word(word: &str) -> (c: SampleCommand)
    ensures
        c == sample_word_spec(word@),
{
    if same_text(word, "quit") {
        SampleCommand::Quit
    } else if same_text(word, "truncate") {
        SampleCommand::Truncate
    } else if same_text(word, "repitch") {
        SampleCommand::Repitch
    } else if same_text(word, "time-stretch") {
        SampleCommand::TimeStretch
    } else if same_text(word, "param-eq") {
        SampleCommand::ParamEq
    } else {
        SampleCommand::Unknown
    }
}

/// One step of the sample editor: the command on an input line, named by
/// the line without surrounding white space.  Only `quit` ends the editor;
/// the editing commands do nothing yet.
pub fn edit_samples(line: &str) -> (c: SampleCommand)
    ensures
        c == sample_word_spec(trimmed(line@)),
{
    sample_word(trim_text(line))
}

/// Loads wave files or projects; not written yet.
pub fn load() {
}

/// Reads keyboard input; not written yet.
pub fn check_input() {
}

/// Writes a note as its name and octave, or as a hex code; not written yet.
pub fn get_note_as_string() {
}

/// Edits the master channel; not written yet.
pub fn master_edit() {
}

/// Loads a file by its extension; not written yet.
pub fn load_file() {
}

/// Loads a `.wav` file; not written yet.
pub fn load_wav() {
}

} // verus!
