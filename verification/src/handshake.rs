//! The per-connection handshake: after the HTTP upgrade the server sends
//! its key, reads exactly one `ClientInfo` frame, opens the sealed client
//! payload, and acknowledges with `ServerInfo`. The initiating (client or
//! mesh) side mirrors the same frames in the opposite order.

use vstd::prelude::*;

use crate::bytes::{append_bytes, be32_bytes, be32_val, copy_range, get_be32, put_be32};
use crate::crypto::{
    is_key, open, open_of, pub_of, public_key_of, seal, sealed_of, PublicKey, SecretKey, KEY_LEN,
    NONCE_LEN, TAG_LEN,
};
use crate::frame::{frame_wf, Frame, FrameSpec, MAX_FRAME_PAYLOAD};
use crate::http::{process_upgrade, upgrade_decision, upgrade_response, UpgradeError};

verus! {

/// The protocol version the sealed client payload announces.
pub const PROTOCOL_VERSION: u32 = 2;

/// The sealed client payload: the protocol version followed by the mesh
/// key bytes; an empty mesh key means an ordinary client.
pub open spec fn spec_encode_client_payload(version: u32, meshkey: Seq<u8>) -> Seq<u8> {
    be32_bytes(version) + meshkey
}

/// The inverse reading of a sealed client payload.
pub open spec fn spec_decode_client_payload(b: Seq<u8>) -> Option<(u32, Seq<u8>)> {
    if b.len() < 4 {
        None
    } else {
        Some((be32_val(b.subrange(0, 4)), b.subrange(4, b.len() as int)))
    }
}

/// Decoding an encoded client payload yields the version and mesh key back.
pub proof fn lemma_client_payload_round_trip(version: u32, meshkey: Seq<u8>)
    ensures
        spec_decode_client_payload(spec_encode_client_payload(version, meshkey)) == Some(
            (version, meshkey),
        ),
{
    let b = spec_encode_client_payload(version, meshkey);
    assert(b.subrange(0, 4) =~= be32_bytes(version));
    crate::bytes::lemma_be32_round_trip(version);
    assert(b.subrange(4, b.len() as int) =~= meshkey);
}

/// Encodes the plaintext client payload.
pub fn encode_client_payload(version: u32, meshkey: &Vec<u8>) -> (r: Vec<u8>)
    ensures
        r@ == spec_encode_client_payload(version, meshkey@),
{
    let mut out: Vec<u8> = Vec::new();
    put_be32(&mut out, version);
    append_bytes(&mut out, meshkey.as_slice());
    out
}

/// Decodes a plaintext client payload.
pub fn decode_client_payload(b: &Vec<u8>) -> (r: Option<(u32, Vec<u8>)>)
    ensures
        (match r {
            Some((v, mk)) => Some((v, mk@)),
            None => None,
        }) == spec_decode_client_payload(b@),
{
    if b.len() < 4 {
        return None;
    }
    let v = get_be32(b.as_slice(), 0);
    let mk = copy_range(b.as_slice(), 4, b.len());
    Some((v, mk))
}

/// Everything that can fail the frame phase of the handshake.
#[derive(Clone, Copy, PartialEq, Eq, Structural, Debug)]
pub enum HandshakeError {
    /// A frame of another type arrived where one type was owed.
    UnexpectedFrame,
    /// The sealed payload did not open under these keys.
    DecryptFailed,
    /// The opened payload does not hold a version and a mesh key.
    BadPayload,
    /// The announced protocol version is not the one spoken here.
    BadVersion,
}

/// What the server decides on one received frame while waiting for
/// `ClientInfo`: the authenticated key and the mesh key bytes (empty for an
/// ordinary client), or the error that closes the connection.
pub open spec fn client_info_decision(f: FrameSpec, sk: Seq<u8>) -> Result<
    (Seq<u8>, Seq<u8>),
    HandshakeError,
> {
    match f {
        FrameSpec::ClientInfo { public_key, nonce, ciphertext } => {
            match open_of(nonce, ciphertext, sk, public_key) {
                None => Err(HandshakeError::DecryptFailed),
                Some(plain) => {
                    match spec_decode_client_payload(plain) {
                        None => Err(HandshakeError::BadPayload),
                        Some((version, meshkey)) => {
                            if version != PROTOCOL_VERSION {
                                Err(HandshakeError::BadVersion)
                            } else {
                                Ok((public_key, meshkey))
                            }
                        },
                    }
                },
            }
        },
        _ => Err(HandshakeError::UnexpectedFrame),
    }
}

/// Opens and validates one received frame that must be `ClientInfo`,
/// returning the authenticated public key and the mesh key, `None` for an
/// empty one.
pub fn process_client_info(f: &Frame, sk: &SecretKey) -> (r: Result<
    (PublicKey, Option<Vec<u8>>),
    HandshakeError,
>)
    requires
        is_key(sk@),
        frame_wf(f@),
    ensures
        r matches Ok((pk, mk)) ==> client_info_decision(f@, sk@) matches Ok(d) && pk@ == d.0 && (
        match mk {
            Some(m) => m@ == d.1 && d.1.len() > 0,
            None => d.1.len() == 0,
        }),
        r matches Err(e) ==> client_info_decision(f@, sk@) == Err::<
            (Seq<u8>, Seq<u8>),
            HandshakeError,
        >(e),
{
    match f {
        Frame::ClientInfo { public_key, nonce, ciphertext } => {
            let plain = match open(nonce, ciphertext, sk, public_key) {
                Some(p) => p,
                None => {
                    return Err(HandshakeError::DecryptFailed);
                },
            };
            let (version, meshkey) = match decode_client_payload(&plain) {
                Some(p) => p,
                None => {
                    return Err(HandshakeError::BadPayload);
                },
            };
            if version != PROTOCOL_VERSION {
                return Err(HandshakeError::BadVersion);
            }
            let mk = if meshkey.len() == 0 {
                None
            } else {
                Some(meshkey)
            };
            Ok((public_key.clone_key(), mk))
        },
        _ => Err(HandshakeError::UnexpectedFrame),
    }
}

/// Builds the `ClientInfo` frame an initiating side sends: the sealed
/// payload addressed to the server's key, beside this side's public key and
/// the fresh nonce.
pub fn build_client_info(sk: &SecretKey, server_pk: &PublicKey, meshkey: &Vec<u8>) -> (r: Frame)
    requires
        is_key(sk@),
        is_key(server_pk@),
        KEY_LEN + NONCE_LEN + 4 + meshkey@.len() + TAG_LEN <= MAX_FRAME_PAYLOAD,
    ensures
        frame_wf(r@),
        r@ matches FrameSpec::ClientInfo { public_key, nonce, ciphertext } && public_key == pub_of(
            sk@,
        ) && ciphertext == sealed_of(
            spec_encode_client_payload(PROTOCOL_VERSION, meshkey@),
            sk@,
            server_pk@,
            nonce,
        ) && (forall|rsk: Seq<u8>|
            pub_of(rsk) == server_pk@ ==> #[trigger] open_of(nonce, ciphertext, rsk, pub_of(sk@))
                == Some(spec_encode_client_payload(PROTOCOL_VERSION, meshkey@))),
{
    let plain = encode_client_payload(PROTOCOL_VERSION, meshkey);
    let (nonce, ciphertext) = seal(&plain, sk, server_pk);
    let public_key = public_key_of(sk);
    Frame::ClientInfo { public_key, nonce, ciphertext }
}

/// Reads the server's identity out of one received frame that must be
/// `ServerKey`. The magic bytes were already enforced by frame decoding.
pub fn parse_server_key(f: &Frame) -> (r: Result<PublicKey, HandshakeError>)
    ensures
        r matches Ok(pk) ==> f@ matches FrameSpec::ServerKey { public_key } && pk@ == public_key,
        r matches Err(e) ==> !(f@ is ServerKey) && e == HandshakeError::UnexpectedFrame,
{
    match f {
        Frame::ServerKey { public_key } => Ok(public_key.clone_key()),
        _ => Err(HandshakeError::UnexpectedFrame),
    }
}

/// Whether one received frame is the owed `ServerInfo` acknowledgment.
pub fn check_server_info(f: &Frame) -> (r: bool)
    ensures
        r == (f@ is ServerInfo),
{
    match f {
        Frame::ServerInfo => true,
        _ => false,
    }
}

/// The states a server-side handshake walks through; any failure falls
/// directly to `Closed`.
#[derive(Clone, Copy, PartialEq, Eq, Structural, Debug)]
pub enum HandshakePhase {
    AwaitingUpgrade,
    AwaitingClientInfo,
    Authenticated,
    Closed,
}

/// The server-side handshake state machine: the HTTP upgrade first, then
/// exactly one `ClientInfo` frame, then the connection is authenticated.
pub struct ServerHandshake {
    pub phase: HandshakePhase,
}

impl ServerHandshake {
    /// A handshake that still awaits the initial HTTP message.
    pub fn new() -> (r: ServerHandshake)
        ensures
            r.phase == HandshakePhase::AwaitingUpgrade,
    {
        ServerHandshake { phase: HandshakePhase::AwaitingUpgrade }
    }

    /// Feeds the initial HTTP message in; on success the bytes to write
    /// (response head plus `ServerKey` frame) come back and one `ClientInfo`
    /// frame is owed next.
    pub fn on_upgrade(&mut self, msg: &[u8], server_pk: &PublicKey) -> (r: Result<
        Vec<u8>,
        UpgradeError,
    >)
        requires
            old(self).phase == HandshakePhase::AwaitingUpgrade,
            is_key(server_pk@),
        ensures
            r matches Ok(resp) ==> upgrade_decision(msg@) == Ok::<(), UpgradeError>(()) && resp@
                == upgrade_response(server_pk@) && final(self).phase
                == HandshakePhase::AwaitingClientInfo,
            r matches Err(e) ==> upgrade_decision(msg@) == Err::<(), UpgradeError>(e)
                && final(self).phase == HandshakePhase::Closed,
    {
        match process_upgrade(msg, server_pk) {
            Ok(resp) => {
                self.phase = HandshakePhase::AwaitingClientInfo;
                Ok(resp)
            },
            Err(e) => {
                self.phase = HandshakePhase::Closed;
                Err(e)
            },
        }
    }

    /// Feeds the one frame read after the upgrade in; on success the
    /// connection is authenticated under the returned key, and the caller
    /// owes the client a `ServerInfo` frame.
    pub fn on_client_info(&mut self, f: &Frame, sk: &SecretKey) -> (r: Result<
        (PublicKey, Option<Vec<u8>>),
        HandshakeError,
    >)
        requires
            old(self).phase == HandshakePhase::AwaitingClientInfo,
            is_key(sk@),
            frame_wf(f@),
        ensures
            r matches Ok((pk, mk)) ==> client_info_decision(f@, sk@) matches Ok(d) && pk@ == d.0
                && (match mk {
                Some(m) => m@ == d.1 && d.1.len() > 0,
                None => d.1.len() == 0,
            }) && final(self).phase == HandshakePhase::Authenticated,
            r matches Err(e) ==> client_info_decision(f@, sk@) == Err::<
                (Seq<u8>, Seq<u8>),
                HandshakeError,
            >(e) && final(self).phase == HandshakePhase::Closed,
    {
        match process_client_info(f, sk) {
            Ok(ok) => {
                self.phase = HandshakePhase::Authenticated;
                Ok(ok)
            },
            Err(e) => {
                self.phase = HandshakePhase::Closed;
                Err(e)
            },
        }
    }
}

} // verus!
