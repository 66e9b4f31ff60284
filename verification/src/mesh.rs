//! The mesh side: deciding whether a claimed mesh key is trusted, and the
//! per-peer session state a node keeps while bridging presence and packets
//! between its own registry and a remote relay node. The session logic is a
//! pure state machine; the surrounding socket loop performs its actions.

use vstd::prelude::*;

use crate::bytes::eq_bytes;
use crate::crypto::{is_key, PublicKey, KEY_LEN};
use crate::frame::{frame_wf, Frame, FrameSpec, MAX_FRAME_PAYLOAD};

verus! {

/// Whether a claimed mesh key is exactly this node's configured one; a node
/// without a configured key trusts nobody, and an absent claim is never
/// trusted.
pub open spec fn mesh_keys_match(claimed: Option<Seq<u8>>, configured: Option<Seq<u8>>) -> bool {
    match (claimed, configured) {
        (Some(c), Some(g)) => c == g,
        _ => false,
    }
}

/// The view of an optional key.
pub open spec fn opt_bytes_view(o: Option<Vec<u8>>) -> Option<Seq<u8>> {
    match o {
        Some(v) => Some(v@),
        None => None,
    }
}

/// Decides whether a handshake claiming `claimed` may join this node's mesh.
pub fn mesh_key_matches(claimed: &Option<Vec<u8>>, configured: &Option<Vec<u8>>) -> (r: bool)
    ensures
        r == mesh_keys_match(opt_bytes_view(*claimed), opt_bytes_view(*configured)),
{
    match (claimed, configured) {
        (Some(c), Some(g)) => eq_bytes(c.as_slice(), g.as_slice()),
        _ => false,
    }
}

/// The keys this session has seen come online on the remote peer.
pub open spec fn keys_view(s: Seq<PublicKey>) -> Seq<Seq<u8>> {
    s.map(|i: int, k: PublicKey| k@)
}

/// Whether the remote peer announced `k` as one of its clients.
pub open spec fn keys_contain(s: Seq<PublicKey>, k: Seq<u8>) -> bool {
    exists|i: int| 0 <= i < s.len() && s[i]@ == k
}

/// No key is listed twice.
pub open spec fn unique_key_list(s: Seq<PublicKey>) -> bool {
    forall|a: int, b: int| 0 <= a < b < s.len() ==> s[a]@ != s[b]@
}

/// What the socket loop must do with one frame the remote peer sent.
pub enum MeshAction {
    /// Hand the payload to the local registry, addressed to `dst`.
    Deliver { dst: PublicKey, payload: Vec<u8> },
    /// Presence bookkeeping was applied; nothing to do outside.
    Noted,
    /// A frame no mesh peer should send; ignored.
    Ignore,
}

/// One outbound mesh session against a remote relay node.
pub struct MeshSession {
    pub peer_keys: Vec<PublicKey>,
}

impl MeshSession {
    /// Distinct well-formed keys.
    pub open spec fn wf(&self) -> bool {
        &&& unique_key_list(self.peer_keys@)
        &&& forall|i: int| 0 <= i < self.peer_keys@.len() ==> is_key(#[trigger] self.peer_keys@[i]@)
    }

    /// A session that has not yet seen any presence.
    pub fn new() -> (r: MeshSession)
        ensures
            r.wf(),
            r.peer_keys@.len() == 0,
    {
        MeshSession { peer_keys: Vec::new() }
    }

    fn find_key(&self, k: &PublicKey) -> (r: Option<usize>)
        ensures
            r matches Some(i) ==> i < self.peer_keys@.len() && self.peer_keys@[i as int]@ == k@,
            r is None ==> !keys_contain(self.peer_keys@, k@),
    {
        let mut i: usize = 0;
        while i < self.peer_keys.len()
            invariant
                i <= self.peer_keys@.len(),
                forall|j: int| 0 <= j < i ==> self.peer_keys@[j]@ != k@,
            decreases self.peer_keys@.len() - i,
        {
            if eq_bytes(self.peer_keys[i].bytes.as_slice(), k.bytes.as_slice()) {
                return Some(i);
            }
            i = i + 1;
        }
        None
    }

    /// Applies one frame from the remote peer to the session: presence
    /// updates the set of remotely reachable keys, a forwarded packet is
    /// handed out for local delivery, and anything else is ignored.
    pub fn on_peer_frame(&mut self, f: Frame) -> (r: MeshAction)
        requires
            old(self).wf(),
            frame_wf(f@),
        ensures
            final(self).wf(),
            f@ matches FrameSpec::PeerPresent { public_key, online } ==> (r is Noted && (if online {
                keys_contain(final(self).peer_keys@, public_key) && (keys_contain(
                    old(self).peer_keys@,
                    public_key,
                ) ==> final(self).peer_keys@ == old(self).peer_keys@) && (!keys_contain(
                    old(self).peer_keys@,
                    public_key,
                ) ==> keys_view(final(self).peer_keys@) == keys_view(old(self).peer_keys@).push(
                    public_key,
                ))
            } else {
                !keys_contain(final(self).peer_keys@, public_key) && (forall|i: int|
                    0 <= i < old(self).peer_keys@.len() && (#[trigger] old(self).peer_keys@[i]@)
                        == public_key ==> keys_view(final(self).peer_keys@) == keys_view(
                        old(self).peer_keys@,
                    ).remove(i)) && (!keys_contain(old(self).peer_keys@, public_key)
                    ==> final(self).peer_keys@ == old(self).peer_keys@)
            })),
            f@ matches FrameSpec::ForwardPacket { dst: d, payload: p } ==> final(self).peer_keys@
                == old(self).peer_keys@ && (r matches MeshAction::Deliver { dst, payload } && dst@ == d
                && payload@ == p),
            !(f@ is PeerPresent) && !(f@ is ForwardPacket) ==> r is Ignore
                && final(self).peer_keys@ == old(self).peer_keys@,
    {
        match f {
            Frame::PeerPresent { public_key, online } => {
                let found = self.find_key(&public_key);
                if online {
                    match found {
                        Some(_) => {},
                        None => {
                            self.peer_keys.push(public_key);
                            proof {
                                assert(keys_view(self.peer_keys@) =~= keys_view(
                                    old(self).peer_keys@,
                                ).push(self.peer_keys@.last()@));
                                assert(keys_contain(self.peer_keys@, self.peer_keys@.last()@));
                            }
                        },
                    }
                } else {
                    match found {
                        Some(i) => {
                            self.peer_keys.remove(i);
                            proof {
                                assert(keys_view(self.peer_keys@) =~= keys_view(
                                    old(self).peer_keys@,
                                ).remove(i as int));
                                assert(!keys_contain(self.peer_keys@, old(
                                    self,
                                ).peer_keys@[i as int]@)) by {
                                    assert forall|j: int|
                                        0 <= j < self.peer_keys@.len() implies self.peer_keys@[j]@
                                        != old(self).peer_keys@[i as int]@ by {
                                        if j < i as int {
                                            assert(self.peer_keys@[j] == old(self).peer_keys@[j]);
                                        } else {
                                            assert(self.peer_keys@[j] == old(self).peer_keys@[j
                                                + 1]);
                                        }
                                    }
                                }
                            }
                        },
                        None => {},
                    }
                }
                MeshAction::Noted
            },
            Frame::ForwardPacket { dst, payload } => MeshAction::Deliver { dst, payload },
            _ => MeshAction::Ignore,
        }
    }

    /// Wraps a locally originated packet for the peer link when, and only
    /// when, its destination is known to live on that peer.
    pub fn route_local_packet(&self, dst: &PublicKey, payload: &Vec<u8>) -> (r: Option<Frame>)
        requires
            self.wf(),
            is_key(dst@),
            KEY_LEN + payload@.len() <= MAX_FRAME_PAYLOAD,
        ensures
            r is Some <==> keys_contain(self.peer_keys@, dst@),
            r matches Some(f) ==> f@ == (FrameSpec::ForwardPacket {
                dst: dst@,
                payload: payload@,
            }) && frame_wf(f@),
    {
        match self.find_key(dst) {
            Some(_) => Some(
                Frame::ForwardPacket {
                    dst: dst.clone_key(),
                    payload: vstd::slice::slice_to_vec(payload.as_slice()),
                },
            ),
            None => None,
        }
    }
}

} // verus!
