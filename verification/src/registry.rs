//! Connection registry: the set of live multiplexed byte-stream
//! connections, keyed by peer address.
//!
//! An address has at most one live connection at a time: registering an
//! address again stands for the upstream protocol replacing the earlier
//! connection, so the new handle supersedes the old entry outright.

use vstd::prelude::*;

verus! {

/// The stable address of one multiplexed peer, as the relay engine
/// names it: the numeric form of its IP address, and its port.
#[derive(Clone, Copy, Debug, PartialEq, Eq, Hash, Structural)]
pub struct PeerAddr {
    pub ip: u128,
    pub port: u16,
}

/// One live connection: its peer address and the opaque handle of its
/// write path.
pub struct ConnEntry {
    pub addr: PeerAddr,
    pub conn: u64,
}

/// All live connections.
pub struct ConnRegistry {
    pub entries: Vec<ConnEntry>,
}

impl ConnRegistry {
    /// An empty registry.
    pub fn new() -> (r: ConnRegistry)
        ensures
            r.wf(),
            r.entries@.len() == 0,
    {
        ConnRegistry { entries: Vec::new() }
    }

    /// Well-formedness: at most one entry per peer address.
    pub open spec fn wf(self) -> bool {
        forall|i: int, j: int|
            0 <= i < j < self.entries@.len() ==> self.entries@[i].addr != self.entries@[j].addr
    }

    /// Whether this address has a live connection.
    pub open spec fn has_conn(self, a: PeerAddr) -> bool {
        exists|i: int| 0 <= i < self.entries@.len() && self.entries@[i].addr == a
    }

    /// The position of the address's entry.
    pub open spec fn conn_index(self, a: PeerAddr) -> int {
        choose|i: int| 0 <= i < self.entries@.len() && self.entries@[i].addr == a
    }

    /// The write-path handle of the address's live connection.
    pub open spec fn conn_of(self, a: PeerAddr) -> u64 {
        self.entries@[self.conn_index(a)].conn
    }

    /// An entry seen at some position is the one its address finds.
    proof fn lemma_conn_at(self, i: int)
        requires
            self.wf(),
            0 <= i < self.entries@.len(),
        ensures
            self.has_conn(self.entries@[i].addr),
            self.conn_index(self.entries@[i].addr) == i,
    {
        let a = self.entries@[i].addr;
        assert(self.has_conn(a));
        let j = self.conn_index(a);
        if i < j {
            assert(self.entries@[i].addr != self.entries@[j].addr);
        } else if j < i {
            assert(self.entries@[j].addr != self.entries@[i].addr);
        }
    }

    /// Finds the position of the address's entry.
    fn find(&self, addr: PeerAddr) -> (r: Option<usize>)
        ensures
            match r {
                Option::Some(i) => 0 <= i < self.entries@.len() && self.entries@[i as int].addr
                    == addr,
                Option::None => !self.has_conn(addr),
            },
    {
        let mut i: usize = 0;
        while i < self.entries.len()
            invariant
                i <= self.entries@.len(),
                forall|j: int| 0 <= j < i ==> (#[trigger] self.entries@[j].addr) != addr,
            decreases self.entries@.len() - i,
        {
            if self.entries[i].addr == addr {
                return Option::Some(i);
            }
            i = i + 1;
        }
        Option::None
    }

    /// Registers a connection for an address.  A live entry for the
    /// same address is superseded: the new handle replaces it.
    pub fn register(&mut self, addr: PeerAddr, conn: u64)
        requires
            old(self).wf(),
        ensures
            final(self).wf(),
            final(self).has_conn(addr),
            final(self).conn_of(addr) == conn,
            forall|a2: PeerAddr|
                a2 != addr ==> #[trigger] final(self).has_conn(a2) == old(self).has_conn(a2),
            forall|a2: PeerAddr|
                a2 != addr && old(self).has_conn(a2) ==> #[trigger] final(self).conn_of(a2)
                    == old(self).conn_of(a2),
    {
        let ghost old_self = *self;
        match self.find(addr) {
            Option::Some(i) => {
                proof {
                    self.lemma_conn_at(i as int);
                }
                let mut e = self.entries.remove(i);
                e.conn = conn;
                let ghost new_entry = e;
                self.entries.insert(i, e);
                proof {
                    assert(self.entries@ =~= old_self.entries@.update(i as int, new_entry));
                    assert(self.wf());
                    self.lemma_conn_at(i as int);
                    self.lemma_frame(old_self, i as int, addr);
                }
            },
            Option::None => {
                self.entries.push(ConnEntry { addr, conn });
                proof {
                    let n = old_self.entries@.len() as int;
                    assert forall|i: int, j: int|
                        0 <= i < j < self.entries@.len() implies self.entries@[i].addr
                        != self.entries@[j].addr by {
                        if j == n {
                            assert(old_self.has_conn(old_self.entries@[i].addr));
                        }
                    }
                    self.lemma_conn_at(n);
                    self.lemma_frame(old_self, n, addr);
                }
            },
        }
    }

    /// Addresses other than the one at `i` keep their entries when only
    /// the entry at `i` changed or appeared, and it carries `addr`.
    proof fn lemma_frame(self, prior: ConnRegistry, i: int, addr: PeerAddr)
        requires
            self.wf(),
            prior.wf(),
            0 <= i < self.entries@.len(),
            self.entries@[i].addr == addr,
            forall|k: int|
                0 <= k < self.entries@.len() && k != i ==> 0 <= k < prior.entries@.len()
                    && (#[trigger] self.entries@[k]) == prior.entries@[k],
            forall|k: int|
                0 <= k < prior.entries@.len() && k != i ==> 0 <= k < self.entries@.len()
                    && (#[trigger] prior.entries@[k]) == self.entries@[k],
            prior.has_conn(addr) ==> prior.conn_index(addr) == i,
            !prior.has_conn(addr) ==> prior.entries@.len() == i,
        ensures
            forall|a2: PeerAddr|
                a2 != addr ==> #[trigger] self.has_conn(a2) == prior.has_conn(a2),
            forall|a2: PeerAddr|
                a2 != addr && prior.has_conn(a2) ==> #[trigger] self.conn_of(a2)
                    == prior.conn_of(a2),
    {
        assert forall|a2: PeerAddr| a2 != addr implies #[trigger] self.has_conn(a2)
            == prior.has_conn(a2) by {
            if self.has_conn(a2) {
                let k = self.conn_index(a2);
                assert(self.entries@[k].addr == a2);
                assert(k != i);
                assert(prior.entries@[k].addr == a2);
            }
            if prior.has_conn(a2) {
                let k = prior.conn_index(a2);
                assert(prior.entries@[k].addr == a2);
                if prior.has_conn(addr) && k == i {
                    prior.lemma_conn_at(i);
                }
                assert(k != i);
                assert(self.entries@[k].addr == a2);
            }
        }
        assert forall|a2: PeerAddr| a2 != addr && prior.has_conn(a2) implies #[trigger] self
            .conn_of(a2) == prior.conn_of(a2) by {
            let k = prior.conn_index(a2);
            assert(prior.entries@[k].addr == a2);
            if prior.has_conn(addr) && k == i {
                prior.lemma_conn_at(i);
            }
            assert(k != i);
            assert(self.entries@[k].addr == a2);
            self.lemma_conn_at(k);
        }
    }

    /// The write-path handle of an address's live connection, if any.
    pub fn lookup(&self, addr: PeerAddr) -> (r: Option<u64>)
        requires
            self.wf(),
        ensures
            r is Some <==> self.has_conn(addr),
            r matches Some(c) ==> c == self.conn_of(addr),
    {
        match self.find(addr) {
            Option::Some(i) => {
                proof {
                    self.lemma_conn_at(i as int);
                }
                Option::Some(self.entries[i].conn)
            },
            Option::None => Option::None,
        }
    }

    /// Removes an address's entry, if it has one.
    pub fn deregister(&mut self, addr: PeerAddr) -> (was: bool)
        requires
            old(self).wf(),
        ensures
            final(self).wf(),
            was <==> old(self).has_conn(addr),
            !final(self).has_conn(addr),
            !was ==> *final(self) == *old(self),
            forall|a2: PeerAddr|
                a2 != addr ==> #[trigger] final(self).has_conn(a2) == old(self).has_conn(a2),
            forall|a2: PeerAddr|
                a2 != addr && old(self).has_conn(a2) ==> #[trigger] final(self).conn_of(a2)
                    == old(self).conn_of(a2),
    {
        let ghost old_self = *self;
        match self.find(addr) {
            Option::None => false,
            Option::Some(i) => {
                proof {
                    self.lemma_conn_at(i as int);
                }
                self.entries.remove(i);
                proof {
                    assert(forall|k: int|
                        0 <= k < self.entries@.len() ==> (#[trigger] self.entries@[k])
                            == old_self.entries@[
                        if k < i as int {
                            k
                        } else {
                            k + 1
                        }
                    ]);
                    assert(self.wf());
                    if self.has_conn(addr) {
                        let k = self.conn_index(addr);
                        let k0 = if k < i as int { k } else { k + 1 as int };
                        assert(old_self.entries@[k0].addr == addr);
                        old_self.lemma_conn_at(k0);
                    }
                    assert forall|a2: PeerAddr| a2 != addr implies #[trigger] self.has_conn(
                        a2,
                    ) == old_self.has_conn(a2) by {
                        if self.has_conn(a2) {
                            let k = self.conn_index(a2);
                            let k0 = if k < i as int { k } else { k + 1 as int };
                            assert(old_self.entries@[k0].addr == a2);
                        }
                        if old_self.has_conn(a2) {
                            let k0 = old_self.conn_index(a2);
                            assert(old_self.entries@[k0].addr == a2);
                            assert(k0 != i as int);
                            let k = if k0 < i as int { k0 } else { k0 - 1 as int };
                            assert(self.entries@[k].addr == a2);
                        }
                    }
                    assert forall|a2: PeerAddr| a2 != addr && old_self.has_conn(
                        a2,
                    ) implies #[trigger] self.conn_of(a2) == old_self.conn_of(a2) by {
                        let k0 = old_self.conn_index(a2);
                        assert(old_self.entries@[k0].addr == a2);
                        assert(k0 != i as int);
                        let k = if k0 < i as int { k0 } else { k0 - 1 as int };
                        assert(self.entries@[k].addr == a2);
                        self.lemma_conn_at(k);
                    }
                }
                true
            },
        }
    }
}

} // verus!
