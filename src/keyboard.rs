//! The local keyboard layout: one row of letter keys spans an octave from
//! middle C, the keys above it give the sharps, and Escape quits.
use vstd::prelude::*;

use crate::color::Color;
use crate::event::{Note, NoteView};
use crate::playback::KeyOutcome;

verus! {

/// A key press, as the input backend reports it.
#[derive(Clone, Copy, Debug, PartialEq, Eq, Structural)]
pub enum Key {
    Char(char),
    Esc,
    Other,
}

/// The pitch name a letter key plays, if any.
pub open spec fn spec_pitch_for_key(c: char) -> Option<Seq<u8>> {
    if c == 'a' {
        Some(seq![99u8, 52u8])
    } else if c == 'w' {
        Some(seq![99u8, 35u8, 52u8])
    } else if c == 's' {
        Some(seq![100u8, 52u8])
    } else if c == 'e' {
        Some(seq![100u8, 35u8, 52u8])
    } else if c == 'd' {
        Some(seq![101u8, 52u8])
    } else if c == 'f' {
        Some(seq![102u8, 52u8])
    } else if c == 't' {
        Some(seq![102u8, 35u8, 52u8])
    } else if c == 'g' {
        Some(seq![103u8, 52u8])
    } else if c == 'y' {
        Some(seq![103u8, 35u8, 52u8])
    } else if c == 'h' {
        Some(seq![97u8, 52u8])
    } else if c == 'u' {
        Some(seq![97u8, 35u8, 52u8])
    } else if c == 'j' {
        Some(seq![98u8, 52u8])
    } else if c == 'k' {
        Some(seq![99u8, 53u8])
    } else {
        None
    }
}

pub fn pitch_for_key(c: char) -> (r: Option<Vec<u8>>)
    ensures
        match spec_pitch_for_key(c) {
            Some(p) => r is Some && r->Some_0@ == p,
            None => r is None,
        },
{
    let r = match c {
        'a' => Some(vec![99u8, 52u8]),
        'w' => Some(vec![99u8, 35u8, 52u8]),
        's' => Some(vec![100u8, 52u8]),
        'e' => Some(vec![100u8, 35u8, 52u8]),
        'd' => Some(vec![101u8, 52u8]),
        'f' => Some(vec![102u8, 52u8]),
        't' => Some(vec![102u8, 35u8, 52u8]),
        'g' => Some(vec![103u8, 52u8]),
        'y' => Some(vec![103u8, 35u8, 52u8]),
        'h' => Some(vec![97u8, 52u8]),
        'u' => Some(vec![97u8, 35u8, 52u8]),
        'j' => Some(vec![98u8, 52u8]),
        'k' => Some(vec![99u8, 53u8]),
        _ => None,
    };
    proof {
        if r is Some {
            assert(r->Some_0@ =~= spec_pitch_for_key(c)->0);
        }
    }
    r
}

/// What a key press means: Escape quits, a letter of the layout plays its
/// note in the keyboard's colour for `duration_ms`, anything else is ignored.
pub fn process_key(key: Key, color: Color, duration_ms: u64) -> (r: KeyOutcome)
    ensures
        key == Key::Esc ==> r is Quit,
        key is Other ==> r is Ignored,
        key is Char ==> match spec_pitch_for_key(key->Char_0) {
            Some(p) => r is Note && r->Note_0@ == (NoteView { pitch: p, duration_ms, color }),
            None => r is Ignored,
        },
{
    match key {
        Key::Esc => KeyOutcome::Quit,
        Key::Other => KeyOutcome::Ignored,
        Key::Char(c) => match pitch_for_key(c) {
            Some(p) => KeyOutcome::Note(Note::new(p, color, duration_ms)),
            None => KeyOutcome::Ignored,
        },
    }
}

} // verus!
