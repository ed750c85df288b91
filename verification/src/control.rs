//! The control surface: what an input event asks the synthesizer to do.

use crate::wavetable::Waveform;
use vstd::prelude::*;

verus! {

/// The size of the terminal, in character cells.
#[derive(Clone, Copy, PartialEq, Eq, Debug)]
pub struct Vec2 {
    pub x: u16,
    pub y: u16,
}

/// Whether a key went down, is being held, or came up.
#[derive(Clone, Copy, PartialEq, Eq, Debug)]
pub enum KeyEventKind {
    Press,
    Repeat,
    Release,
}

/// An input event, reduced to what the synthesizer reacts to.
#[derive(Clone, Copy, PartialEq, Eq, Debug)]
pub enum InputEvent {
    /// A character key, with what happened to it.
    Key(char, KeyEventKind),
    /// The terminal was resized to this many columns and rows.
    Resize(u16, u16),
    /// Anything else: a key that is no character, focus, mouse, paste.
    Other,
}

/// One command to the synthesizer.
#[derive(Clone, Copy, PartialEq, Eq, Debug)]
pub enum Action {
    Quit,
    ChangeWindowSize(Vec2),
    /// Start a note: its frequency in hundredths of a hertz, and the key that holds it.
    NoteOn(i32, char),
    NoteOff(char),
    ChangeWavetable(Waveform),
    IncreaseVolume,
    DecreaseVolume,
    /// Nothing to do.
    Nothing,
}

/// The note a key plays, in hundredths of a hertz: C4, D4, E4 and F4 on
/// `a`, `s`, `d` and `f`.
pub open spec fn key_frequency(key: char) -> Option<i32> {
    if key == 'a' {
        Some(26163i32)
    } else if key == 's' {
        Some(29366i32)
    } else if key == 'd' {
        Some(32963i32)
    } else if key == 'f' {
        Some(34923i32)
    } else {
        None
    }
}

/// What a character key does: the command keys act on every kind of key
/// event, the note keys start their note when pressed and end it when
/// released, and a held note key repeats nothing.
pub open spec fn key_action(key: char, kind: KeyEventKind) -> Action {
    if key == 'Q' {
        Action::Quit
    } else if key == '1' {
        Action::ChangeWavetable(Waveform::Sine)
    } else if key == '2' {
        Action::ChangeWavetable(Waveform::Saw)
    } else if key == '3' {
        Action::ChangeWavetable(Waveform::Square)
    } else if key == '4' {
        Action::ChangeWavetable(Waveform::Triangle)
    } else if key == '+' {
        Action::IncreaseVolume
    } else if key == '-' {
        Action::DecreaseVolume
    } else {
        match (key_frequency(key), kind) {
            (Some(frequency), KeyEventKind::Press) => Action::NoteOn(frequency, key),
            (Some(_), KeyEventKind::Release) => Action::NoteOff(key),
            _ => Action::Nothing,
        }
    }
}

/// The command an event stands for; no event, and an event the synthesizer
/// does not react to, stand for `Action::Nothing`.
pub open spec fn event_action(event: Option<InputEvent>) -> Action {
    match event {
        Some(InputEvent::Key(key, kind)) => key_action(key, kind),
        Some(InputEvent::Resize(columns, rows)) => Action::ChangeWindowSize(
            Vec2 { x: columns, y: rows },
        ),
        _ => Action::Nothing,
    }
}

/// The frequency of the note on `key`, if it is a note key.
pub fn note_frequency(key: char) -> (frequency: Option<i32>)
    ensures
        frequency == key_frequency(key),
{
    match key {
        'a' => Some(26163),
        's' => Some(29366),
        'd' => Some(32963),
        'f' => Some(34923),
        _ => None,
    }
}

/// Turns an input event into the command it stands for.
pub fn process_event(event: Option<InputEvent>) -> (action: Action)
    ensures
        action == event_action(event),
{
    match event {
        Some(InputEvent::Key(key, kind)) => match key {
            'Q' => Action::Quit,
            '1' => Action::ChangeWavetable(Waveform::Sine),
            '2' => Action::ChangeWavetable(Waveform::Saw),
            '3' => Action::ChangeWavetable(Waveform::Square),
            '4' => Action::ChangeWavetable(Waveform::Triangle),
            '+' => Action::IncreaseVolume,
            '-' => Action::DecreaseVolume,
            _ => {
                let frequency = note_frequency(key);
                match kind {
                    KeyEventKind::Press => match frequency {
                        Some(frequency) => Action::NoteOn(frequency, key),
                        None => Action::Nothing,
                    },
                    KeyEventKind::Release => match frequency {
                        Some(_) => Action::NoteOff(key),
                        None => Action::Nothing,
                    },
                    KeyEventKind::Repeat => Action::Nothing,
                }
            },
        },
        Some(InputEvent::Resize(columns, rows)) => Action::ChangeWindowSize(
            Vec2 { x: columns, y: rows },
        ),
        _ => Action::Nothing,
    }
}

} // verus!
