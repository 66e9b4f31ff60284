//! The connection registry and forwarding engine: at most one live
//! connection per public key, best-effort packet routing into bounded
//! per-connection outbound queues, and presence notifications to every
//! watcher on each register and unregister.

use vstd::prelude::*;
use vstd::slice::slice_to_vec;

use crate::crypto::{is_key, PublicKey};

verus! {

/// Bound on one connection's outbound queue; a packet forwarded into a full
/// queue is dropped (drop-newest) rather than stalling the relay.
pub const QUEUE_CAP: usize = 512;

/// The mathematical shape of a registry entry.
pub struct ConnModel {
    pub key: Seq<u8>,
    pub conn_id: u64,
    pub outbound: Seq<Seq<u8>>,
}

/// The mathematical shape of a presence event.
pub struct EventModel {
    pub key: Seq<u8>,
    pub online: bool,
}

/// The mathematical shape of a watcher.
pub struct WatcherModel {
    pub watcher_id: u64,
    pub events: Seq<EventModel>,
}

/// One live authenticated connection: its key, a number naming the session
/// that owns the socket, and the queue of payloads owed to that socket.
pub struct ConnEntry {
    pub key: PublicKey,
    pub conn_id: u64,
    pub outbound: Vec<Vec<u8>>,
}

/// A `PeerPresent` notification owed to a watcher.
pub struct PresenceEvent {
    pub key: PublicKey,
    pub online: bool,
}

/// A presence subscriber and the events it has not yet been sent.
pub struct Watcher {
    pub watcher_id: u64,
    pub events: Vec<PresenceEvent>,
}

impl View for PresenceEvent {
    type V = EventModel;

    open spec fn view(&self) -> EventModel {
        EventModel { key: self.key@, online: self.online }
    }
}

impl View for ConnEntry {
    type V = ConnModel;

    open spec fn view(&self) -> ConnModel {
        ConnModel {
            key: self.key@,
            conn_id: self.conn_id,
            outbound: self.outbound@.map(|i: int, v: Vec<u8>| v@),
        }
    }
}

impl View for Watcher {
    type V = WatcherModel;

    open spec fn view(&self) -> WatcherModel {
        WatcherModel {
            watcher_id: self.watcher_id,
            events: self.events@.map(|i: int, e: PresenceEvent| e@),
        }
    }
}

/// The models of a sequence of entries.
pub open spec fn conn_models(s: Seq<ConnEntry>) -> Seq<ConnModel> {
    s.map(|i: int, c: ConnEntry| c@)
}

/// Whether some entry holds the key.
pub open spec fn conns_contain(s: Seq<ConnEntry>, k: Seq<u8>) -> bool {
    exists|i: int| 0 <= i < s.len() && s[i].key@ == k
}

/// No two entries share a key.
pub open spec fn unique_keys(s: Seq<ConnEntry>) -> bool {
    forall|a: int, b: int| 0 <= a < b < s.len() ==> s[a].key@ != s[b].key@
}

/// Whether some watcher holds the id.
pub open spec fn watchers_contain(s: Seq<Watcher>, id: u64) -> bool {
    exists|i: int| 0 <= i < s.len() && s[i].watcher_id == id
}

/// No two watchers share an id.
pub open spec fn unique_watchers(s: Seq<Watcher>) -> bool {
    forall|a: int, b: int| 0 <= a < b < s.len() ==> s[a].watcher_id != s[b].watcher_id
}

/// Every watcher keeps its id and gains exactly the one event at the end of
/// its queue.
pub open spec fn events_pushed(before: Seq<Watcher>, after: Seq<Watcher>, ev: EventModel) -> bool {
    &&& after.len() == before.len()
    &&& forall|i: int|
        0 <= i < before.len() ==> (#[trigger] after[i]@).watcher_id == before[i]@.watcher_id
            && after[i]@.events == before[i]@.events.push(ev)
}

/// The shared service state: the key-to-connection map and the watcher set.
pub struct Registry {
    pub conns: Vec<ConnEntry>,
    pub watchers: Vec<Watcher>,
}

impl Registry {
    /// Exactly one live entry per key, 32-byte keys, and distinct watchers.
    pub open spec fn wf(&self) -> bool {
        &&& unique_keys(self.conns@)
        &&& forall|i: int| 0 <= i < self.conns@.len() ==> is_key(#[trigger] self.conns@[i].key@)
        &&& unique_watchers(self.watchers@)
    }

    /// An empty registry.
    pub fn new() -> (r: Registry)
        ensures
            r.wf(),
            r.conns@.len() == 0,
            r.watchers@.len() == 0,
    {
        Registry { conns: Vec::new(), watchers: Vec::new() }
    }

    /// The index of the entry holding `key`, if any.
    fn find_conn(&self, key: &PublicKey) -> (r: Option<usize>)
        ensures
            r matches Some(i) ==> i < self.conns@.len() && self.conns@[i as int].key@ == key@,
            r is None ==> !conns_contain(self.conns@, key@),
    {
        let mut i: usize = 0;
        while i < self.conns.len()
            invariant
                i <= self.conns@.len(),
                forall|j: int| 0 <= j < i ==> self.conns@[j].key@ != key@,
            decreases self.conns@.len() - i,
        {
            if crate::bytes::eq_bytes(self.conns[i].key.bytes.as_slice(), key.bytes.as_slice()) {
                return Some(i);
            }
            i = i + 1;
        }
        None
    }

    /// The index of the watcher holding `watcher_id`, if any.
    fn find_watcher(&self, watcher_id: u64) -> (r: Option<usize>)
        ensures
            r matches Some(i) ==> i < self.watchers@.len() && self.watchers@[i as int].watcher_id
                == watcher_id,
            r is None ==> !watchers_contain(self.watchers@, watcher_id),
    {
        let mut i: usize = 0;
        while i < self.watchers.len()
            invariant
                i <= self.watchers@.len(),
                forall|j: int| 0 <= j < i ==> self.watchers@[j].watcher_id != watcher_id,
            decreases self.watchers@.len() - i,
        {
            if self.watchers[i].watcher_id == watcher_id {
                return Some(i);
            }
            i = i + 1;
        }
        None
    }

    /// Appends one presence event to every watcher's queue.
    fn broadcast(&mut self, key: &PublicKey, online: bool)
        ensures
            final(self).conns@ == old(self).conns@,
            events_pushed(
                old(self).watchers@,
                final(self).watchers@,
                EventModel { key: key@, online },
            ),
            unique_watchers(old(self).watchers@) ==> unique_watchers(final(self).watchers@),
    {
        let ghost before = self.watchers@;
        let mut i: usize = 0;
        while i < self.watchers.len()
            invariant
                i <= self.watchers@.len(),
                self.watchers@.len() == before.len(),
                self.conns@ == old(self).conns@,
                forall|j: int|
                    0 <= j < i ==> (#[trigger] self.watchers@[j]@).watcher_id
                        == before[j]@.watcher_id && self.watchers@[j]@.events
                        == before[j]@.events.push(EventModel { key: key@, online }),
                forall|j: int| i <= j < before.len() ==> self.watchers@[j] == before[j],
            decreases self.watchers@.len() - i,
        {
            let mut w = self.watchers.remove(i);
            w.events.push(PresenceEvent { key: key.clone_key(), online });
            proof {
                assert(w@.events =~= before[i as int]@.events.push(
                    EventModel { key: key@, online },
                ));
            }
            self.watchers.insert(i, w);
            i = i + 1;
        }
        proof {
            if unique_watchers(old(self).watchers@) {
                assert forall|a: int, b: int|
                    0 <= a < b < self.watchers@.len() implies self.watchers@[a].watcher_id
                    != self.watchers@[b].watcher_id by {
                    assert((#[trigger] self.watchers@[a]@).watcher_id == old(
                        self,
                    ).watchers@[a]@.watcher_id);
                    assert((#[trigger] self.watchers@[b]@).watcher_id == old(
                        self,
                    ).watchers@[b]@.watcher_id);
                }
            }
        }
    }

    /// Inserts or replaces the entry for `key`: a fresh entry owned by
    /// session `conn_id` takes the key, the evicted session's id (to be
    /// closed by the caller) comes back if the key was taken, and every
    /// watcher is owed a `PeerPresent` online event. At most one entry per
    /// key survives.
    pub fn register(&mut self, key: &PublicKey, conn_id: u64) -> (r: Option<u64>)
        requires
            old(self).wf(),
            is_key(key@),
        ensures
            final(self).wf(),
            conns_contain(final(self).conns@, key@),
            r is None <==> !conns_contain(old(self).conns@, key@),
            forall|i: int|
                0 <= i < old(self).conns@.len() && (#[trigger] old(self).conns@[i].key@) == key@
                    ==> r == Some(old(self).conns@[i].conn_id) && conn_models(final(self).conns@)
                    == conn_models(old(self).conns@).remove(i).push(
                    ConnModel { key: key@, conn_id, outbound: Seq::empty() },
                ),
            !conns_contain(old(self).conns@, key@) ==> conn_models(final(self).conns@)
                == conn_models(old(self).conns@).push(
                ConnModel { key: key@, conn_id, outbound: Seq::empty() },
            ),
            events_pushed(
                old(self).watchers@,
                final(self).watchers@,
                EventModel { key: key@, online: true },
            ),
    {
        let found = self.find_conn(key);
        let fresh = ConnEntry { key: key.clone_key(), conn_id, outbound: Vec::new() };
        proof {
            assert(fresh@ == (ConnModel { key: key@, conn_id, outbound: Seq::empty() })) by {
                assert(fresh@.outbound =~= Seq::<Seq<u8>>::empty());
            }
        }
        let r = match found {
            Some(i) => {
                let evicted = self.conns.remove(i);
                self.conns.push(fresh);
                proof {
                    let ov = conn_models(old(self).conns@);
                    let nv = conn_models(self.conns@);
                    assert(nv =~= ov.remove(i as int).push(
                        ConnModel { key: key@, conn_id, outbound: Seq::empty() },
                    ));
                }
                Some(evicted.conn_id)
            },
            None => {
                self.conns.push(fresh);
                proof {
                    let ov = conn_models(old(self).conns@);
                    let nv = conn_models(self.conns@);
                    assert(nv =~= ov.push(ConnModel { key: key@, conn_id, outbound: Seq::empty() }));
                }
                None
            },
        };
        proof {
            assert(unique_keys(self.conns@)) by {
                let oc = old(self).conns@;
                let nc = self.conns@;
                assert forall|a: int, b: int| 0 <= a < b < nc.len() implies nc[a].key@
                    != nc[b].key@ by {
                    if b == nc.len() - 1 {
                        assert(nc[b].key@ == key@);
                        if r is Some {
                            let i = choose|i: int|
                                0 <= i < oc.len() && oc[i].key@ == key@ && nc =~= oc.remove(
                                    i,
                                ).push(nc[b]);
                        }
                    }
                }
            }
            assert(conns_contain(self.conns@, key@)) by {
                assert(self.conns@[self.conns@.len() - 1].key@ == key@);
            }
        }
        self.broadcast(key, true);
        r
    }

    /// Removes the entry for `key` only while session `conn_id` still owns
    /// it (a stale unregister racing a newer registration does nothing), and
    /// then owes every watcher a `PeerPresent` offline event.
    pub fn unregister(&mut self, key: &PublicKey, conn_id: u64) -> (r: bool)
        requires
            old(self).wf(),
        ensures
            final(self).wf(),
            r <==> exists|i: int|
                0 <= i < old(self).conns@.len() && (#[trigger] old(self).conns@[i].key@) == key@
                    && old(self).conns@[i].conn_id == conn_id,
            !r ==> final(self).conns@ == old(self).conns@ && final(self).watchers@ == old(
                self,
            ).watchers@,
            r ==> forall|i: int|
                0 <= i < old(self).conns@.len() && (#[trigger] old(self).conns@[i].key@) == key@
                    && old(self).conns@[i].conn_id == conn_id ==> conn_models(final(self).conns@)
                    == conn_models(old(self).conns@).remove(i),
            r ==> !conns_contain(final(self).conns@, key@),
            r ==> events_pushed(
                old(self).watchers@,
                final(self).watchers@,
                EventModel { key: key@, online: false },
            ),
    {
        let found = self.find_conn(key);
        match found {
            Some(i) => {
                if self.conns[i].conn_id != conn_id {
                    return false;
                }
                self.conns.remove(i);
                proof {
                    let ov = conn_models(old(self).conns@);
                    let nv = conn_models(self.conns@);
                    assert(nv =~= ov.remove(i as int));
                    assert(unique_keys(self.conns@));
                    assert(!conns_contain(self.conns@, key@)) by {
                        assert forall|j: int|
                            0 <= j < self.conns@.len() implies self.conns@[j].key@ != key@ by {
                            if j < i as int {
                                assert(self.conns@[j] == old(self).conns@[j]);
                            } else {
                                assert(self.conns@[j] == old(self).conns@[j + 1]);
                            }
                        }
                    }
                }
                self.broadcast(key, false);
                true
            },
            None => false,
        }
    }

    /// Routes one packet: when `dst` is registered and its queue has room,
    /// the payload is appended unmodified to that connection's outbound
    /// queue and nothing else changes; otherwise the packet is dropped and
    /// the registry is untouched. The source is not consulted: delivery is
    /// best-effort and at most once.
    pub fn forward(&mut self, src: &PublicKey, dst: &PublicKey, payload: &[u8]) -> (r:
        ForwardOutcome)
        requires
            old(self).wf(),
        ensures
            final(self).wf(),
            final(self).watchers@ == old(self).watchers@,
            !conns_contain(old(self).conns@, dst@) ==> r == ForwardOutcome::DroppedUnknownDest
                && final(self).conns@ == old(self).conns@,
            forall|i: int|
                0 <= i < old(self).conns@.len() && (#[trigger] old(self).conns@[i].key@) == dst@
                    ==> if old(self).conns@[i]@.outbound.len() >= QUEUE_CAP {
                    r == ForwardOutcome::DroppedQueueFull && final(self).conns@ == old(self).conns@
                } else {
                    r == ForwardOutcome::Delivered && conn_models(final(self).conns@)
                        == conn_models(old(self).conns@).update(
                        i,
                        ConnModel {
                            key: old(self).conns@[i]@.key,
                            conn_id: old(self).conns@[i]@.conn_id,
                            outbound: old(self).conns@[i]@.outbound.push(payload@),
                        },
                    )
                },
    {
        let found = self.find_conn(dst);
        match found {
            Some(i) => {
                if self.conns[i].outbound.len() >= QUEUE_CAP {
                    return ForwardOutcome::DroppedQueueFull;
                }
                let mut e = self.conns.remove(i);
                e.outbound.push(slice_to_vec(payload));
                self.conns.insert(i, e);
                proof {
                    let ov = conn_models(old(self).conns@);
                    let nv = conn_models(self.conns@);
                    assert(self.conns@[i as int]@.outbound =~= old(self).conns@[i as int]@.outbound
                        .push(payload@));
                    assert(nv =~= ov.update(
                        i as int,
                        ConnModel {
                            key: old(self).conns@[i as int]@.key,
                            conn_id: old(self).conns@[i as int]@.conn_id,
                            outbound: old(self).conns@[i as int]@.outbound.push(payload@),
                        },
                    ));
                    assert(unique_keys(self.conns@)) by {
                        assert forall|a: int, b: int|
                            0 <= a < b < self.conns@.len() implies self.conns@[a].key@
                            != self.conns@[b].key@ by {
                            assert(self.conns@[a].key@ == old(self).conns@[a].key@);
                            assert(self.conns@[b].key@ == old(self).conns@[b].key@);
                        }
                    }
                }
                ForwardOutcome::Delivered
            },
            None => ForwardOutcome::DroppedUnknownDest,
        }
    }

    /// Registers a presence subscriber under a fresh id; an id already taken
    /// is refused and nothing changes. Historical presence is not replayed:
    /// the new watcher's queue starts empty.
    pub fn watch(&mut self, watcher_id: u64) -> (r: bool)
        requires
            old(self).wf(),
        ensures
            final(self).wf(),
            final(self).conns@ == old(self).conns@,
            r <==> !watchers_contain(old(self).watchers@, watcher_id),
            !r ==> final(self).watchers@ == old(self).watchers@,
            r ==> final(self).watchers@.len() == old(self).watchers@.len() + 1 && (forall|j: int|
                0 <= j < old(self).watchers@.len() ==> final(self).watchers@[j] == old(
                    self,
                ).watchers@[j]) && final(self).watchers@.last()@ == (WatcherModel {
                watcher_id,
                events: Seq::empty(),
            }),
    {
        match self.find_watcher(watcher_id) {
            Some(_) => false,
            None => {
                let w = Watcher { watcher_id, events: Vec::new() };
                proof {
                    assert(w@.events =~= Seq::<EventModel>::empty());
                }
                self.watchers.push(w);
                true
            },
        }
    }

    /// Hands the caller everything queued for `key`'s socket and leaves that
    /// queue empty; nothing else changes.
    pub fn take_outbound(&mut self, key: &PublicKey) -> (r: Option<Vec<Vec<u8>>>)
        requires
            old(self).wf(),
        ensures
            final(self).wf(),
            final(self).watchers@ == old(self).watchers@,
            r is None <==> !conns_contain(old(self).conns@, key@),
            r is None ==> final(self).conns@ == old(self).conns@,
            forall|i: int|
                0 <= i < old(self).conns@.len() && (#[trigger] old(self).conns@[i].key@) == key@
                    ==> (r matches Some(q) && q@.map(|n: int, v: Vec<u8>| v@) == old(
                    self,
                ).conns@[i]@.outbound && conn_models(final(self).conns@) == conn_models(
                    old(self).conns@,
                ).update(
                    i,
                    ConnModel {
                        key: old(self).conns@[i]@.key,
                        conn_id: old(self).conns@[i]@.conn_id,
                        outbound: Seq::empty(),
                    },
                )),
    {
        let found = self.find_conn(key);
        match found {
            Some(i) => {
                let mut e = self.conns.remove(i);
                let q = e.outbound;
                e.outbound = Vec::new();
                self.conns.insert(i, e);
                proof {
                    assert(self.conns@[i as int]@.outbound =~= Seq::<Seq<u8>>::empty());
                    assert(conn_models(self.conns@) =~= conn_models(old(self).conns@).update(
                        i as int,
                        ConnModel {
                            key: old(self).conns@[i as int]@.key,
                            conn_id: old(self).conns@[i as int]@.conn_id,
                            outbound: Seq::empty(),
                        },
                    ));
                    assert(unique_keys(self.conns@)) by {
                        assert forall|a: int, b: int|
                            0 <= a < b < self.conns@.len() implies self.conns@[a].key@
                            != self.conns@[b].key@ by {
                            assert(self.conns@[a].key@ == old(self).conns@[a].key@);
                            assert(self.conns@[b].key@ == old(self).conns@[b].key@);
                        }
                    }
                }
                Some(q)
            },
            None => None,
        }
    }

    /// Hands the caller every presence event queued for `watcher_id` and
    /// leaves that queue empty; nothing else changes.
    pub fn take_events(&mut self, watcher_id: u64) -> (r: Option<Vec<PresenceEvent>>)
        requires
            old(self).wf(),
        ensures
            final(self).wf(),
            final(self).conns@ == old(self).conns@,
            r is None <==> !watchers_contain(old(self).watchers@, watcher_id),
            r is None ==> final(self).watchers@ == old(self).watchers@,
            forall|i: int|
                0 <= i < old(self).watchers@.len() && (#[trigger] old(
                    self,
                ).watchers@[i].watcher_id) == watcher_id ==> (r matches Some(q) && q@.map(
                    |n: int, e: PresenceEvent| e@,
                ) == old(self).watchers@[i]@.events && final(self).watchers@.len() == old(
                    self,
                ).watchers@.len() && (forall|j: int|
                    0 <= j < old(self).watchers@.len() && j != i ==> final(self).watchers@[j]
                        == old(self).watchers@[j]) && final(self).watchers@[i]@ == (WatcherModel {
                    watcher_id,
                    events: Seq::empty(),
                })),
    {
        let found = self.find_watcher(watcher_id);
        match found {
            Some(i) => {
                let mut w = self.watchers.remove(i);
                let q = w.events;
                w.events = Vec::new();
                self.watchers.insert(i, w);
                proof {
                    assert(self.watchers@[i as int]@.events =~= Seq::<EventModel>::empty());
                    assert(unique_watchers(self.watchers@)) by {
                        assert forall|a: int, b: int|
                            0 <= a < b < self.watchers@.len() implies self.watchers@[a].watcher_id
                            != self.watchers@[b].watcher_id by {
                            assert(self.watchers@[a].watcher_id == old(
                                self,
                            ).watchers@[a].watcher_id);
                            assert(self.watchers@[b].watcher_id == old(
                                self,
                            ).watchers@[b].watcher_id);
                        }
                    }
                }
                Some(q)
            },
            None => None,
        }
    }
}

/// What became of one forwarded packet.
#[derive(Clone, Copy, PartialEq, Eq, Structural, Debug)]
pub enum ForwardOutcome {
    /// The payload now sits at the end of the destination's outbound queue.
    Delivered,
    /// No connection holds the destination key.
    DroppedUnknownDest,
    /// The destination's outbound queue was full; the newest packet is the
    /// one dropped.
    DroppedQueueFull,
}

} // verus!
