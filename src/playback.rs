//! Paced replay of recorded notes and the decisions of the input loop.
use vstd::prelude::*;

use crate::color::Color;
use crate::event::{EventView, Note, NoteView};
use crate::sender::{broadcast, datagrams_view, Datagram, Sender};
use crate::wire::encoding;

verus! {

/// A configuration value that cannot be used.
#[derive(Clone, Copy, Debug, PartialEq, Eq, Structural)]
pub enum ConfigError {
    /// The playback tempo is not above zero.
    NonPositiveTempo,
}

/// A playback speed factor, in thousandths: 1000 replays at recorded speed,
/// 2000 twice as fast.
#[derive(Clone, Copy, Debug, PartialEq, Eq, Structural)]
pub struct Tempo {
    per_mille: u64,
}

impl Tempo {
    pub closed spec fn spec_per_mille(self) -> u64 {
        self.per_mille
    }

    pub open spec fn wf(self) -> bool {
        self.spec_per_mille() > 0
    }

    /// A tempo of `per_mille` thousandths; zero is refused.
    pub fn new(per_mille: u64) -> (r: Result<Tempo, ConfigError>)
        ensures
            r is Ok <==> per_mille > 0,
            r is Ok ==> r->Ok_0.wf() && r->Ok_0.spec_per_mille() == per_mille,
            r is Err ==> r->Err_0 == ConfigError::NonPositiveTempo,
    {
        if per_mille == 0 {
            Err(ConfigError::NonPositiveTempo)
        } else {
            Ok(Tempo { per_mille })
        }
    }

    pub fn per_mille(&self) -> (r: u64)
        ensures
            r == self.spec_per_mille(),
    {
        self.per_mille
    }

    /// A recorded delay scaled by the tempo, rounded down, and capped at
    /// the largest `u64`.
    pub fn scaled_delay_ms(&self, delay_ms: u64) -> (r: u64)
        requires
            self.wf(),
        ensures
            r == spec_scaled_delay(delay_ms, self.spec_per_mille()),
    {
        let exact: u128 = (delay_ms as u128) * 1000 / (self.per_mille as u128);
        if exact > u64::MAX as u128 {
            u64::MAX
        } else {
            exact as u64
        }
    }
}

pub open spec fn spec_scaled_delay(delay_ms: u64, per_mille: u64) -> u64 {
    let exact = delay_ms * 1000 / per_mille as int;
    if exact > u64::MAX {
        u64::MAX
    } else {
        exact as u64
    }
}

/// One line of a recording: a pitch, how long it sounds, and how long to
/// wait after the previous note.
#[derive(Clone, Debug, PartialEq, Eq)]
pub struct PlaybackRecord {
    pub pitch: Vec<u8>,
    pub duration_ms: u64,
    pub delay_ms: u64,
}

/// How long to wait before a recorded note, and the note, in the keyboard's
/// current colour.
pub fn play_from_file(tempo: &Tempo, record: PlaybackRecord, color: Color) -> (r: (u64, Note))
    requires
        tempo.wf(),
    ensures
        r.0 == spec_scaled_delay(record.delay_ms, tempo.spec_per_mille()),
        r.1@ == (NoteView { pitch: record.pitch@, duration_ms: record.duration_ms, color }),
{
    let wait = tempo.scaled_delay_ms(record.delay_ms);
    (wait, Note::new(record.pitch, color, record.duration_ms))
}

/// What the local keyboard made of one key.
#[derive(Debug)]
pub enum KeyOutcome {
    Note(Note),
    Quit,
    Ignored,
}

/// One turn of the input loop: `None` ends it, otherwise the datagrams to
/// send (a played note goes to every peer).
pub fn game_loop(sender: &Sender, outcome: KeyOutcome) -> (r: Option<Vec<Datagram>>)
    ensures
        match outcome {
            KeyOutcome::Note(n) => r is Some && datagrams_view(r->Some_0@) == broadcast(
                sender.peer_addrs@,
                encoding(EventView::Note(n@)),
            ),
            KeyOutcome::Quit => r is None,
            KeyOutcome::Ignored => r is Some && r->Some_0@.len() == 0,
        },
{
    match outcome {
        KeyOutcome::Note(n) => Some(sender.tick(&n)),
        KeyOutcome::Quit => None,
        KeyOutcome::Ignored => Some(Vec::new()),
    }
}

} // verus!
