use vstd::prelude::*;

use crate::address::{Endpoint, IpAddr};

verus! {

/// The ordered endpoints of the other participants. Slot 0 is the host's.
pub struct PeerDirectory {
    entries: Vec<Endpoint>,
}

/// The directory after `e` joins: appended unless it is already there.
pub open spec fn joined(d: Seq<Endpoint>, e: Endpoint) -> Seq<Endpoint> {
    if d.contains(e) {
        d
    } else {
        d.push(e)
    }
}

/// A peer list with slot 0 rewritten to the host's observed address and
/// announced port; an empty list has no slot to rewrite.
pub open spec fn patched(peers: Seq<Endpoint>, ip: IpAddr, port: u16) -> Seq<Endpoint> {
    if peers.len() == 0 {
        peers
    } else {
        peers.update(0, Endpoint { ip, port })
    }
}

/// `e` stands at most once in `d`.
pub open spec fn at_most_once(d: Seq<Endpoint>, e: Endpoint) -> bool {
    forall|i: int, j: int| 0 <= i < d.len() && 0 <= j < d.len() && d[i] == e && d[j] == e ==> i == j
}

impl View for PeerDirectory {
    type V = Seq<Endpoint>;

    closed spec fn view(&self) -> Seq<Endpoint> {
        self.entries@
    }
}

impl PeerDirectory {
    pub fn new() -> (r: PeerDirectory)
        ensures
            r@ == Seq::<Endpoint>::empty(),
    {
        PeerDirectory { entries: Vec::new() }
    }

    pub fn len(&self) -> (r: usize)
        ensures
            r == self@.len(),
    {
        self.entries.len()
    }

    pub fn get(&self, i: usize) -> (r: Endpoint)
        requires
            i < self@.len(),
        ensures
            r == self@[i as int],
    {
        self.entries[i]
    }

    /// A copy of the entries, all taken from this one state of the directory.
    pub fn snapshot(&self) -> (r: Vec<Endpoint>)
        ensures
            r@ == self@,
    {
        let mut out: Vec<Endpoint> = Vec::new();
        let mut i: usize = 0;
        while i < self.entries.len()
            invariant
                0 <= i <= self@.len(),
                out@ == self@.take(i as int),
            decreases self@.len() - i,
        {
            out.push(self.entries[i]);
            i = i + 1;
            assert(out@ =~= self@.take(i as int));
        }
        assert(self@.take(i as int) =~= self@);
        out
    }

    /// The first slot that holds `e`.
    pub fn position(&self, e: Endpoint) -> (r: Option<usize>)
        ensures
            match r {
                Some(i) => i < self@.len() && self@[i as int] == e && forall|j: int|
                    0 <= j < i ==> self@[j] != e,
                None => !self@.contains(e),
            },
    {
        let mut i: usize = 0;
        while i < self.entries.len()
            invariant
                0 <= i <= self@.len(),
                forall|j: int| 0 <= j < i ==> self@[j] != e,
            decreases self@.len() - i,
        {
            if self.entries[i] == e {
                return Some(i);
            }
            i = i + 1;
        }
        None
    }

    /// Adds `e` unless it is already present; returns its slot.
    pub fn join(&mut self, e: Endpoint) -> (r: usize)
        ensures
            final(self)@ == joined(old(self)@, e),
            r < final(self)@.len(),
            final(self)@[r as int] == e,
            forall|j: int| 0 <= j < r ==> final(self)@[j] != e,
    {
        match self.position(e) {
            Some(i) => {
                assert(self@.contains(e));
                i
            },
            None => {
                let n = self.entries.len();
                self.entries.push(e);
                n
            },
        }
    }

    /// Replaces every entry by those of `peers`.
    pub fn replace(&mut self, peers: Vec<Endpoint>)
        ensures
            final(self)@ == peers@,
    {
        self.entries = peers;
    }
}

/// Joining twice is joining once, and a newcomer stands exactly once.
pub proof fn lemma_join_idempotent(d: Seq<Endpoint>, e: Endpoint)
    ensures
        joined(joined(d, e), e) == joined(d, e),
        joined(d, e).contains(e),
        at_most_once(d, e) ==> at_most_once(joined(d, e), e),
        !d.contains(e) ==> joined(d, e).len() == d.len() + 1,
{
    if !d.contains(e) {
        assert(d.push(e)[d.len() as int] == e);
        if at_most_once(d, e) {
            assert forall|i: int, j: int|
                0 <= i < d.len() + 1 && 0 <= j < d.len() + 1 && d.push(e)[i] == e && d.push(e)[j]
                    == e implies i == j by {
                if i < d.len() {
                    assert(d.contains(e));
                }
                if j < d.len() {
                    assert(d.contains(e));
                }
            }
        }
    }
}

} // verus!
