use vstd::prelude::*;

use vstd::slice::slice_to_vec;

use crate::address::Endpoint;
use crate::directory::{joined, PeerDirectory};
use crate::event::{EventView, NetworkEvent, Note};
use crate::wire::{encode, encoding};

verus! {

/// One datagram to send: where to, and the encoded event.
#[derive(Clone, Debug, PartialEq, Eq)]
pub struct Datagram {
    pub dest: Endpoint,
    pub payload: Vec<u8>,
}

impl View for Datagram {
    type V = (Endpoint, Seq<u8>);

    open spec fn view(&self) -> (Endpoint, Seq<u8>) {
        (self.dest, self.payload@)
    }
}

pub open spec fn datagrams_view(v: Seq<Datagram>) -> Seq<(Endpoint, Seq<u8>)> {
    v.map_values(|d: Datagram| d@)
}

/// The same payload to every destination, in directory order.
pub open spec fn broadcast(dests: Seq<Endpoint>, payload: Seq<u8>) -> Seq<(Endpoint, Seq<u8>)> {
    Seq::new(dests.len(), |i: int| (dests[i], payload))
}

/// What the host sends when `remote` has joined and `dir` is the directory
/// after the join: the newcomer's identity, then the full peer list to every
/// peer.
pub open spec fn welcome(dir: Seq<Endpoint>, remote: Endpoint, id: u64, port: u16) -> Seq<
    (Endpoint, Seq<u8>),
> {
    seq![(remote, encoding(EventView::ID(id)))] + broadcast(
        dir,
        encoding(EventView::Peers(port, dir)),
    )
}

/// The slot of `e` in `d`: its first occurrence.
pub open spec fn first_slot(d: Seq<Endpoint>, e: Endpoint, i: int) -> bool {
    &&& 0 <= i < d.len()
    &&& d[i] == e
    &&& forall|j: int| 0 <= j < i ==> d[j] != e
}

/// The rendezvous address and the directory of peers that notes fan out to.
pub struct Sender {
    pub host_addr: Endpoint,
    pub peer_addrs: PeerDirectory,
}

fn fan_out(dests: &Vec<Endpoint>, payload: &Vec<u8>, out: &mut Vec<Datagram>)
    ensures
        datagrams_view(final(out)@) == datagrams_view(old(out)@) + broadcast(dests@, payload@),
{
    let mut i: usize = 0;
    while i < dests.len()
        invariant
            0 <= i <= dests@.len(),
            datagrams_view(out@) =~= datagrams_view(old(out)@) + broadcast(
                dests@.take(i as int),
                payload@,
            ),
        decreases dests@.len() - i,
    {
        let copy = payload.clone();
        assert(copy@ =~= payload@);
        let dg = Datagram { dest: dests[i], payload: copy };
        let ghost prev = out@;
        out.push(dg);
        assert(datagrams_view(out@) =~= datagrams_view(prev).push(dg@));
        assert(broadcast(dests@.take(i + 1), payload@) =~= broadcast(dests@.take(i as int), payload@).push(
            (dests@[i as int], payload@),
        ));
        i = i + 1;
        assert(datagrams_view(out@) =~= datagrams_view(old(out)@) + broadcast(
            dests@.take(i as int),
            payload@,
        ));
    }
    assert(dests@.take(i as int) =~= dests@);
}

impl Sender {
    /// A sender that announces itself to `host_addr` and knows no peers yet.
    pub fn new(host_addr: Endpoint) -> (r: Sender)
        ensures
            r.host_addr == host_addr,
            r.peer_addrs@ == Seq::<Endpoint>::empty(),
    {
        Sender { host_addr, peer_addrs: PeerDirectory::new() }
    }

    /// The join request for the host: this participant listens on
    /// `local_listen_port`.
    pub fn register_self(&self, local_listen_port: u16) -> (r: Datagram)
        ensures
            r@ == (self.host_addr, encoding(EventView::PlayerJoin(local_listen_port))),
    {
        let payload = encode(&NetworkEvent::PlayerJoin(local_listen_port));
        Datagram { dest: self.host_addr, payload }
    }

    /// Accepts a joiner: it gets a slot (its old one if it is known), its
    /// identity is that slot, and every peer gets the new peer list.
    pub fn register_remote_socket(&mut self, local_port: u16, remote_addr: Endpoint) -> (r: Vec<
        Datagram,
    >)
        ensures
            final(self).host_addr == old(self).host_addr,
            final(self).peer_addrs@ == joined(old(self).peer_addrs@, remote_addr),
            exists|id: int|
                first_slot(final(self).peer_addrs@, remote_addr, id) && datagrams_view(r@)
                    == welcome(final(self).peer_addrs@, remote_addr, id as u64, local_port),
    {
        let id = self.peer_addrs.join(remote_addr);
        let mut out: Vec<Datagram> = Vec::new();
        let id_payload = encode(&NetworkEvent::ID(id as u64));
        out.push(Datagram { dest: remote_addr, payload: id_payload });
        let dests = self.peer_addrs.snapshot();
        let listed = dests.clone();
        assert(listed@ =~= dests@);
        let peers_payload = encode(&NetworkEvent::Peers(local_port, listed));
        fan_out(&dests, &peers_payload, &mut out);
        assert(first_slot(self.peer_addrs@, remote_addr, id as int));
        assert(datagrams_view(out@) =~= welcome(self.peer_addrs@, remote_addr, id as u64, local_port));
        out
    }

    /// The note, encoded once, for every peer of the directory as it stands:
    /// none when the directory is empty.
    pub fn tick(&self, note: &Note) -> (r: Vec<Datagram>)
        ensures
            datagrams_view(r@) == broadcast(self.peer_addrs@, encoding(EventView::Note(note@))),
    {
        let copy = Note::new(slice_to_vec(note.pitch.as_slice()), note.color, note.duration_ms);
        let payload = encode(&NetworkEvent::Note(copy));
        let dests = self.peer_addrs.snapshot();
        let mut out: Vec<Datagram> = Vec::new();
        fan_out(&dests, &payload, &mut out);
        assert(datagrams_view(out@) =~= broadcast(
            self.peer_addrs@,
            encoding(EventView::Note(note@)),
        ));
        out
    }
}

} // verus!
