//! What a participant does with each event that arrives: the decisions of
//! the receive loop, from the state and the event to the next state and the
//! datagrams or the note to hand back.
use vstd::prelude::*;

use crate::address::{Endpoint, IpAddr};
use crate::color::{color_for_id, spec_color_for_id, Color};
use crate::directory::{at_most_once, joined, lemma_join_idempotent, patched};
use crate::event::{EventView, NetworkEvent, Note};
use crate::sender::{datagrams_view, first_slot, welcome, Datagram, Sender};

verus! {

/// What the caller is to do once an event has been applied.
#[derive(Debug)]
pub enum Reaction {
    /// Send these datagrams.
    Send(Vec<Datagram>),
    /// Render this note.
    Play(Note),
    /// Nothing more.
    Nothing,
}

/// The directory after an event from source address `src`: a join adds the
/// joiner's endpoint, a peer list replaces everything after its slot 0 is
/// patched; other events leave it.
pub open spec fn next_directory(d: Seq<Endpoint>, e: EventView, src: IpAddr) -> Seq<Endpoint> {
    match e {
        EventView::PlayerJoin(port) => joined(d, Endpoint { ip: src, port }),
        EventView::Peers(port, peers) => patched(peers, src, port),
        _ => d,
    }
}

/// The local colour after an event: an identity sets it, nothing else does.
pub open spec fn next_color(c: Color, e: EventView) -> Color {
    match e {
        EventView::ID(id) => spec_color_for_id(id),
        _ => c,
    }
}

/// Applies one event, received from source address `src` on a socket bound to
/// `local_port`, to the sender and the local colour.
pub fn handle_network_receive_event(
    sender: &mut Sender,
    color: &mut Color,
    local_port: u16,
    event: NetworkEvent,
    src: IpAddr,
) -> (r: Reaction)
    ensures
        final(sender).host_addr == old(sender).host_addr,
        final(sender).peer_addrs@ == next_directory(old(sender).peer_addrs@, event@, src),
        *final(color) == next_color(*old(color), event@),
        match event@ {
            EventView::PlayerJoin(port) => r is Send && exists|id: int|
                first_slot(final(sender).peer_addrs@, Endpoint { ip: src, port }, id)
                    && datagrams_view(r->Send_0@) == welcome(
                    final(sender).peer_addrs@,
                    Endpoint { ip: src, port },
                    id as u64,
                    local_port,
                ),
            EventView::Note(n) => r is Play && r->Play_0@ == n,
            _ => r is Nothing,
        },
{
    match event {
        NetworkEvent::PlayerJoin(port) => {
            let remote = Endpoint { ip: src, port };
            let out = sender.register_remote_socket(local_port, remote);
            Reaction::Send(out)
        },
        NetworkEvent::Peers(port, peers) => {
            let mut peers = peers;
            if peers.len() > 0 {
                peers.set(0, Endpoint { ip: src, port });
            }
            sender.peer_addrs.replace(peers);
            Reaction::Nothing
        },
        NetworkEvent::ID(id) => {
            *color = color_for_id(id);
            Reaction::Nothing
        },
        NetworkEvent::Note(note) => Reaction::Play(note),
    }
}

/// A join that arrives twice changes the directory once, and the joiner's
/// endpoint then stands in it exactly once.
pub proof fn lemma_repeated_join(d: Seq<Endpoint>, src: IpAddr, port: u16)
    requires
        at_most_once(d, Endpoint { ip: src, port }),
    ensures
        ({
            let e = EventView::PlayerJoin(port);
            let once = next_directory(d, e, src);
            let twice = next_directory(once, e, src);
            &&& twice == once
            &&& once.contains(Endpoint { ip: src, port })
            &&& at_most_once(once, Endpoint { ip: src, port })
        }),
{
    lemma_join_idempotent(d, Endpoint { ip: src, port });
}

/// Peer lists replace the directory, never merge into it: after two of them
/// only the second one's content remains.
pub proof fn lemma_peers_replace(
    d: Seq<Endpoint>,
    first_port: u16,
    first: Seq<Endpoint>,
    first_src: IpAddr,
    second_port: u16,
    second: Seq<Endpoint>,
    second_src: IpAddr,
)
    ensures
        next_directory(
            next_directory(d, EventView::Peers(first_port, first), first_src),
            EventView::Peers(second_port, second),
            second_src,
        ) == patched(second, second_src, second_port),
        next_directory(d, EventView::Peers(second_port, second), second_src) == patched(
            second,
            second_src,
            second_port,
        ),
{
}

} // verus!
