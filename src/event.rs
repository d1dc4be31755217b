use vstd::prelude::*;

use crate::address::Endpoint;
use crate::color::Color;

verus! {

/// A played note: the bytes of its pitch name, how long it sounds and the
/// colour of the keyboard that played it.
#[derive(Clone, Debug, PartialEq, Eq)]
pub struct Note {
    pub pitch: Vec<u8>,
    pub duration_ms: u64,
    pub color: Color,
}

pub struct NoteView {
    pub pitch: Seq<u8>,
    pub duration_ms: u64,
    pub color: Color,
}

impl View for Note {
    type V = NoteView;

    open spec fn view(&self) -> NoteView {
        NoteView { pitch: self.pitch@, duration_ms: self.duration_ms, color: self.color }
    }
}

impl Note {
    pub fn new(pitch: Vec<u8>, color: Color, duration_ms: u64) -> (r: Note)
        ensures
            r@ == (NoteView { pitch: pitch@, duration_ms, color }),
    {
        Note { pitch, duration_ms, color }
    }
}

/// The events that travel between participants, one per datagram.
#[derive(Clone, Debug, PartialEq, Eq)]
pub enum NetworkEvent {
    /// A participant wants to join; its endpoint is the datagram's source
    /// address with this port.
    PlayerJoin(u16),
    /// The host's rendezvous port and its full list of peers.
    Peers(u16, Vec<Endpoint>),
    /// The identity assigned to the receiving participant.
    ID(u64),
    /// A note to render.
    Note(Note),
}

pub enum EventView {
    PlayerJoin(u16),
    Peers(u16, Seq<Endpoint>),
    ID(u64),
    Note(NoteView),
}

impl View for NetworkEvent {
    type V = EventView;

    open spec fn view(&self) -> EventView {
        match self {
            NetworkEvent::PlayerJoin(p) => EventView::PlayerJoin(*p),
            NetworkEvent::Peers(p, v) => EventView::Peers(*p, v@),
            NetworkEvent::ID(id) => EventView::ID(*id),
            NetworkEvent::Note(n) => EventView::Note(n@),
        }
    }
}

} // verus!
