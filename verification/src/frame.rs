//! The binary wire format: one frame is a one-byte type tag, a big-endian
//! 32-bit payload length, and the payload itself. Payload layouts are fixed
//! per type; decoding is exact, never reads past the declared length, and
//! fails closed on anything unexpected.

use vstd::prelude::*;

use crate::bytes::{
    append_bytes, be32_bytes, be32_val, copy_range, eq_bytes, get_be32, lemma_be32_round_trip,
    put_be32,
};
use crate::crypto::{PublicKey, KEY_LEN, NONCE_LEN};

verus! {

/// A frame header: the type tag plus the four length bytes.
pub const HEADER_LEN: usize = 5;

/// Hard maximum for a frame payload; a declared length beyond it is
/// rejected before any payload is read.
pub const MAX_FRAME_PAYLOAD: usize = 65536;

/// The magic bytes opening every `ServerKey` payload.
pub open spec fn magic() -> Seq<u8> {
    seq![68u8, 69u8, 82u8, 80u8, 240u8, 159u8, 148u8, 145u8]
}

/// Length of the `ServerKey` magic.
pub const MAGIC_LEN: usize = 8;

/// The magic bytes as a vector.
pub fn magic_bytes() -> (r: Vec<u8>)
    ensures
        r@ == magic(),
{
    let mut v: Vec<u8> = Vec::new();
    v.push(68);
    v.push(69);
    v.push(82);
    v.push(80);
    v.push(240);
    v.push(159);
    v.push(148);
    v.push(145);
    proof {
        assert(v@ =~= magic());
    }
    v
}

/// The closed set of frame types.
#[derive(Clone, Copy, PartialEq, Eq, Structural, Debug)]
pub enum FrameType {
    ServerKey,
    ClientInfo,
    ServerInfo,
    PeerPresent,
    ForwardPacket,
    WatchConns,
}

/// The stable one-byte code of each frame type.
pub open spec fn type_code(t: FrameType) -> u8 {
    match t {
        FrameType::ServerKey => 1,
        FrameType::ClientInfo => 2,
        FrameType::ServerInfo => 3,
        FrameType::PeerPresent => 4,
        FrameType::ForwardPacket => 5,
        FrameType::WatchConns => 6,
    }
}

/// The frame type behind a one-byte code, if any.
pub open spec fn code_type(c: u8) -> Option<FrameType> {
    if c == 1 {
        Some(FrameType::ServerKey)
    } else if c == 2 {
        Some(FrameType::ClientInfo)
    } else if c == 3 {
        Some(FrameType::ServerInfo)
    } else if c == 4 {
        Some(FrameType::PeerPresent)
    } else if c == 5 {
        Some(FrameType::ForwardPacket)
    } else if c == 6 {
        Some(FrameType::WatchConns)
    } else {
        None
    }
}

/// The stable one-byte code of each frame type.
pub fn frame_type_code(t: FrameType) -> (r: u8)
    ensures
        r == type_code(t),
{
    match t {
        FrameType::ServerKey => 1,
        FrameType::ClientInfo => 2,
        FrameType::ServerInfo => 3,
        FrameType::PeerPresent => 4,
        FrameType::ForwardPacket => 5,
        FrameType::WatchConns => 6,
    }
}

/// The frame type behind a one-byte code, if any.
pub fn frame_type_of_code(c: u8) -> (r: Option<FrameType>)
    ensures
        r == code_type(c),
{
    if c == 1 {
        Some(FrameType::ServerKey)
    } else if c == 2 {
        Some(FrameType::ClientInfo)
    } else if c == 3 {
        Some(FrameType::ServerInfo)
    } else if c == 4 {
        Some(FrameType::PeerPresent)
    } else if c == 5 {
        Some(FrameType::ForwardPacket)
    } else if c == 6 {
        Some(FrameType::WatchConns)
    } else {
        None
    }
}

/// One decoded frame: a closed tagged variant per frame type.
pub enum Frame {
    /// Magic bytes plus the server's public key; the first frame a server
    /// sends after the HTTP upgrade.
    ServerKey { public_key: PublicKey },
    /// The client's public key in the clear, plus a nonce and the sealed
    /// client payload.
    ClientInfo { public_key: PublicKey, nonce: Vec<u8>, ciphertext: Vec<u8> },
    /// Acknowledgment that the handshake is complete; carries no payload.
    ServerInfo,
    /// A peer became reachable (`online`) or unreachable.
    PeerPresent { public_key: PublicKey, online: bool },
    /// Opaque bytes addressed to a destination key.
    ForwardPacket { dst: PublicKey, payload: Vec<u8> },
    /// Subscribes the sender to this node's presence stream; no payload.
    WatchConns,
}

/// The mathematical shape of a frame.
pub enum FrameSpec {
    ServerKey { public_key: Seq<u8> },
    ClientInfo { public_key: Seq<u8>, nonce: Seq<u8>, ciphertext: Seq<u8> },
    ServerInfo,
    PeerPresent { public_key: Seq<u8>, online: bool },
    ForwardPacket { dst: Seq<u8>, payload: Seq<u8> },
    WatchConns,
}

impl View for Frame {
    type V = FrameSpec;

    open spec fn view(&self) -> FrameSpec {
        match self {
            Frame::ServerKey { public_key } => FrameSpec::ServerKey { public_key: public_key@ },
            Frame::ClientInfo { public_key, nonce, ciphertext } => FrameSpec::ClientInfo {
                public_key: public_key@,
                nonce: nonce@,
                ciphertext: ciphertext@,
            },
            Frame::ServerInfo => FrameSpec::ServerInfo,
            Frame::PeerPresent { public_key, online } => FrameSpec::PeerPresent {
                public_key: public_key@,
                online: *online,
            },
            Frame::ForwardPacket { dst, payload } => FrameSpec::ForwardPacket {
                dst: dst@,
                payload: payload@,
            },
            Frame::WatchConns => FrameSpec::WatchConns,
        }
    }
}

/// The type tag a frame is encoded under.
pub open spec fn spec_frame_type(f: FrameSpec) -> FrameType {
    match f {
        FrameSpec::ServerKey { .. } => FrameType::ServerKey,
        FrameSpec::ClientInfo { .. } => FrameType::ClientInfo,
        FrameSpec::ServerInfo => FrameType::ServerInfo,
        FrameSpec::PeerPresent { .. } => FrameType::PeerPresent,
        FrameSpec::ForwardPacket { .. } => FrameType::ForwardPacket,
        FrameSpec::WatchConns => FrameType::WatchConns,
    }
}

/// A frame whose fields fit the wire format: keys and nonces have their
/// fixed lengths and the payload fits under the hard maximum.
pub open spec fn frame_wf(f: FrameSpec) -> bool {
    match f {
        FrameSpec::ServerKey { public_key } => public_key.len() == KEY_LEN,
        FrameSpec::ClientInfo { public_key, nonce, ciphertext } => public_key.len() == KEY_LEN
            && nonce.len() == NONCE_LEN && KEY_LEN + NONCE_LEN + ciphertext.len()
            <= MAX_FRAME_PAYLOAD,
        FrameSpec::ServerInfo => true,
        FrameSpec::PeerPresent { public_key, .. } => public_key.len() == KEY_LEN,
        FrameSpec::ForwardPacket { dst, payload } => dst.len() == KEY_LEN && KEY_LEN
            + payload.len() <= MAX_FRAME_PAYLOAD,
        FrameSpec::WatchConns => true,
    }
}

/// The payload bytes of a frame.
pub open spec fn spec_payload(f: FrameSpec) -> Seq<u8> {
    match f {
        FrameSpec::ServerKey { public_key } => magic() + public_key,
        FrameSpec::ClientInfo { public_key, nonce, ciphertext } => public_key + nonce + ciphertext,
        FrameSpec::ServerInfo => Seq::empty(),
        FrameSpec::PeerPresent { public_key, online } => public_key + seq![
            if online {
                1u8
            } else {
                0u8
            },
        ],
        FrameSpec::ForwardPacket { dst, payload } => dst + payload,
        FrameSpec::WatchConns => Seq::empty(),
    }
}

/// The full encoding of a frame: type tag, big-endian payload length,
/// payload.
pub open spec fn spec_encode(f: FrameSpec) -> Seq<u8> {
    seq![type_code(spec_frame_type(f))] + be32_bytes(spec_payload(f).len() as u32) + spec_payload(
        f,
    )
}

/// Everything that can stop a frame from being decoded.
#[derive(Clone, Copy, PartialEq, Eq, Structural, Debug)]
pub enum FrameError {
    /// Fewer bytes than one header.
    TooShort,
    /// The type tag names no frame type.
    UnknownType,
    /// The declared payload length exceeds the hard maximum.
    Oversize,
    /// The buffer does not hold exactly one header plus the declared payload.
    LengthMismatch,
    /// The payload does not fit the layout of its declared type.
    BadPayload,
}

/// Decoding a payload under a known frame type.
pub open spec fn spec_decode_payload(t: FrameType, p: Seq<u8>) -> Option<FrameSpec> {
    match t {
        FrameType::ServerKey => {
            if p.len() == MAGIC_LEN + KEY_LEN && p.subrange(0, MAGIC_LEN as int) == magic() {
                Some(
                    FrameSpec::ServerKey {
                        public_key: p.subrange(MAGIC_LEN as int, (MAGIC_LEN + KEY_LEN) as int),
                    },
                )
            } else {
                None
            }
        },
        FrameType::ClientInfo => {
            if p.len() >= KEY_LEN + NONCE_LEN {
                Some(
                    FrameSpec::ClientInfo {
                        public_key: p.subrange(0, KEY_LEN as int),
                        nonce: p.subrange(KEY_LEN as int, (KEY_LEN + NONCE_LEN) as int),
                        ciphertext: p.subrange((KEY_LEN + NONCE_LEN) as int, p.len() as int),
                    },
                )
            } else {
                None
            }
        },
        FrameType::ServerInfo => {
            if p.len() == 0 {
                Some(FrameSpec::ServerInfo)
            } else {
                None
            }
        },
        FrameType::PeerPresent => {
            if p.len() == KEY_LEN + 1 && (p[KEY_LEN as int] == 0 || p[KEY_LEN as int] == 1) {
                Some(
                    FrameSpec::PeerPresent {
                        public_key: p.subrange(0, KEY_LEN as int),
                        online: p[KEY_LEN as int] == 1,
                    },
                )
            } else {
                None
            }
        },
        FrameType::ForwardPacket => {
            if p.len() >= KEY_LEN {
                Some(
                    FrameSpec::ForwardPacket {
                        dst: p.subrange(0, KEY_LEN as int),
                        payload: p.subrange(KEY_LEN as int, p.len() as int),
                    },
                )
            } else {
                None
            }
        },
        FrameType::WatchConns => {
            if p.len() == 0 {
                Some(FrameSpec::WatchConns)
            } else {
                None
            }
        },
    }
}

/// Decoding a buffer that must hold exactly one frame.
pub open spec fn spec_decode(b: Seq<u8>) -> Result<FrameSpec, FrameError> {
    if b.len() < HEADER_LEN {
        Err(FrameError::TooShort)
    } else {
        match code_type(b[0]) {
            None => Err(FrameError::UnknownType),
            Some(t) => {
                let n = be32_val(b.subrange(1, HEADER_LEN as int)) as int;
                if n > MAX_FRAME_PAYLOAD {
                    Err(FrameError::Oversize)
                } else if b.len() != HEADER_LEN + n {
                    Err(FrameError::LengthMismatch)
                } else {
                    match spec_decode_payload(t, b.subrange(HEADER_LEN as int, b.len() as int)) {
                        Some(f) => Ok(f),
                        None => Err(FrameError::BadPayload),
                    }
                }
            },
        }
    }
}

/// A well-formed frame's payload fits under the hard maximum.
pub proof fn lemma_payload_len(f: FrameSpec)
    requires
        frame_wf(f),
    ensures
        spec_payload(f).len() <= MAX_FRAME_PAYLOAD,
{
    match f {
        FrameSpec::ServerKey { public_key } => {},
        FrameSpec::ClientInfo { public_key, nonce, ciphertext } => {},
        FrameSpec::ServerInfo => {},
        FrameSpec::PeerPresent { public_key, online } => {},
        FrameSpec::ForwardPacket { dst, payload } => {},
        FrameSpec::WatchConns => {},
    }
}

/// Header facts of an encoded well-formed frame.
proof fn lemma_encode_header(f: FrameSpec)
    requires
        frame_wf(f),
    ensures
        spec_encode(f).len() == HEADER_LEN + spec_payload(f).len(),
        spec_encode(f)[0] == type_code(spec_frame_type(f)),
        spec_encode(f).subrange(1, HEADER_LEN as int) == be32_bytes(spec_payload(f).len() as u32),
        spec_encode(f).subrange(HEADER_LEN as int, spec_encode(f).len() as int) == spec_payload(f),
        spec_payload(f).len() <= MAX_FRAME_PAYLOAD,
        be32_val(spec_encode(f).subrange(1, HEADER_LEN as int)) == spec_payload(f).len(),
{
    lemma_payload_len(f);
    let p = spec_payload(f);
    let e = spec_encode(f);
    assert(e.subrange(1, HEADER_LEN as int) =~= be32_bytes(p.len() as u32));
    assert(e.subrange(HEADER_LEN as int, e.len() as int) =~= p);
    lemma_be32_round_trip(p.len() as u32);
}

/// Decoding an encoded well-formed frame yields the frame back.
pub proof fn lemma_frame_round_trip(f: FrameSpec)
    requires
        frame_wf(f),
    ensures
        spec_decode(spec_encode(f)) == Ok::<FrameSpec, FrameError>(f),
{
    lemma_encode_header(f);
    let p = spec_payload(f);
    let e = spec_encode(f);
    match f {
        FrameSpec::ServerKey { public_key } => {
            assert(code_type(e[0]) == Some(FrameType::ServerKey));
            assert(p.subrange(0, MAGIC_LEN as int) =~= magic());
            assert(p.subrange(MAGIC_LEN as int, (MAGIC_LEN + KEY_LEN) as int) =~= public_key);
        },
        FrameSpec::ClientInfo { public_key, nonce, ciphertext } => {
            assert(code_type(e[0]) == Some(FrameType::ClientInfo));
            assert(p.subrange(0, KEY_LEN as int) =~= public_key);
            assert(p.subrange(KEY_LEN as int, (KEY_LEN + NONCE_LEN) as int) =~= nonce);
            assert(p.subrange((KEY_LEN + NONCE_LEN) as int, p.len() as int) =~= ciphertext);
        },
        FrameSpec::ServerInfo => {
            assert(code_type(e[0]) == Some(FrameType::ServerInfo));
        },
        FrameSpec::PeerPresent { public_key, online } => {
            assert(code_type(e[0]) == Some(FrameType::PeerPresent));
            assert(p.subrange(0, KEY_LEN as int) =~= public_key);
            assert(p[KEY_LEN as int] == if online {
                1u8
            } else {
                0u8
            });
        },
        FrameSpec::ForwardPacket { dst, payload } => {
            assert(code_type(e[0]) == Some(FrameType::ForwardPacket));
            assert(p.subrange(0, KEY_LEN as int) =~= dst);
            assert(p.subrange(KEY_LEN as int, p.len() as int) =~= payload);
        },
        FrameSpec::WatchConns => {
            assert(code_type(e[0]) == Some(FrameType::WatchConns));
        },
    }
}

/// A frame that decodes is well-formed.
pub proof fn lemma_decode_wf(b: Seq<u8>)
    ensures
        spec_decode(b) matches Ok(f) ==> frame_wf(f),
{
    if b.len() >= HEADER_LEN && code_type(b[0]) is Some {
        let t = code_type(b[0])->Some_0;
        let n = be32_val(b.subrange(1, HEADER_LEN as int)) as int;
        if n <= MAX_FRAME_PAYLOAD && b.len() == HEADER_LEN + n {
            let p = b.subrange(HEADER_LEN as int, b.len() as int);
            match t {
                FrameType::ServerKey => {},
                FrameType::ClientInfo => {},
                FrameType::ServerInfo => {},
                FrameType::PeerPresent => {},
                FrameType::ForwardPacket => {},
                FrameType::WatchConns => {},
            }
        }
    }
}

/// Encodes one frame for the wire.
pub fn encode_frame(f: &Frame) -> (r: Vec<u8>)
    requires
        frame_wf(f@),
    ensures
        r@ == spec_encode(f@),
{
    let mut payload: Vec<u8> = Vec::new();
    match f {
        Frame::ServerKey { public_key } => {
            let m = magic_bytes();
            append_bytes(&mut payload, m.as_slice());
            append_bytes(&mut payload, public_key.bytes.as_slice());
        },
        Frame::ClientInfo { public_key, nonce, ciphertext } => {
            append_bytes(&mut payload, public_key.bytes.as_slice());
            append_bytes(&mut payload, nonce.as_slice());
            append_bytes(&mut payload, ciphertext.as_slice());
        },
        Frame::ServerInfo => {},
        Frame::PeerPresent { public_key, online } => {
            append_bytes(&mut payload, public_key.bytes.as_slice());
            payload.push(if *online {
                1
            } else {
                0
            });
        },
        Frame::ForwardPacket { dst, payload: body } => {
            append_bytes(&mut payload, dst.bytes.as_slice());
            append_bytes(&mut payload, body.as_slice());
        },
        Frame::WatchConns => {},
    }
    proof {
        assert(payload@ =~= spec_payload(f@));
        lemma_payload_len(f@);
    }
    let mut out: Vec<u8> = Vec::new();
    out.push(frame_type_code(frame_type_of(f)));
    put_be32(&mut out, payload.len() as u32);
    append_bytes(&mut out, payload.as_slice());
    proof {
        assert(out@ =~= spec_encode(f@));
    }
    out
}

/// The type tag of a frame value.
pub fn frame_type_of(f: &Frame) -> (r: FrameType)
    ensures
        r == spec_frame_type(f@),
{
    match f {
        Frame::ServerKey { .. } => FrameType::ServerKey,
        Frame::ClientInfo { .. } => FrameType::ClientInfo,
        Frame::ServerInfo => FrameType::ServerInfo,
        Frame::PeerPresent { .. } => FrameType::PeerPresent,
        Frame::ForwardPacket { .. } => FrameType::ForwardPacket,
        Frame::WatchConns => FrameType::WatchConns,
    }
}

/// Decodes a buffer holding exactly one frame.
pub fn decode_frame(b: &[u8]) -> (r: Result<Frame, FrameError>)
    ensures
        r matches Ok(f) ==> spec_decode(b@) == Ok::<FrameSpec, FrameError>(f@) && frame_wf(f@),
        r matches Err(e) ==> spec_decode(b@) == Err::<FrameSpec, FrameError>(e),
{
    if b.len() < HEADER_LEN {
        return Err(FrameError::TooShort);
    }
    let t = match frame_type_of_code(b[0]) {
        Some(t) => t,
        None => {
            return Err(FrameError::UnknownType);
        },
    };
    let n32 = get_be32(b, 1);
    let n = n32 as usize;
    if n > MAX_FRAME_PAYLOAD {
        return Err(FrameError::Oversize);
    }
    if b.len() != HEADER_LEN + n {
        return Err(FrameError::LengthMismatch);
    }
    let p = copy_range(b, HEADER_LEN, b.len());
    proof {
        lemma_decode_wf(b@);
    }
    match t {
        FrameType::ServerKey => {
            if p.len() != MAGIC_LEN + KEY_LEN {
                return Err(FrameError::BadPayload);
            }
            let m = magic_bytes();
            let mg = copy_range(p.as_slice(), 0, MAGIC_LEN);
            if !eq_bytes(mg.as_slice(), m.as_slice()) {
                return Err(FrameError::BadPayload);
            }
            let pk = copy_range(p.as_slice(), MAGIC_LEN, MAGIC_LEN + KEY_LEN);
            Ok(Frame::ServerKey { public_key: PublicKey { bytes: pk } })
        },
        FrameType::ClientInfo => {
            if p.len() < KEY_LEN + NONCE_LEN {
                return Err(FrameError::BadPayload);
            }
            let pk = copy_range(p.as_slice(), 0, KEY_LEN);
            let nonce = copy_range(p.as_slice(), KEY_LEN, KEY_LEN + NONCE_LEN);
            let ct = copy_range(p.as_slice(), KEY_LEN + NONCE_LEN, p.len());
            Ok(
                Frame::ClientInfo {
                    public_key: PublicKey { bytes: pk },
                    nonce,
                    ciphertext: ct,
                },
            )
        },
        FrameType::ServerInfo => {
            if p.len() != 0 {
                return Err(FrameError::BadPayload);
            }
            Ok(Frame::ServerInfo)
        },
        FrameType::PeerPresent => {
            if p.len() != KEY_LEN + 1 {
                return Err(FrameError::BadPayload);
            }
            let flag = p[KEY_LEN];
            if flag != 0 && flag != 1 {
                return Err(FrameError::BadPayload);
            }
            let pk = copy_range(p.as_slice(), 0, KEY_LEN);
            Ok(Frame::PeerPresent { public_key: PublicKey { bytes: pk }, online: flag == 1 })
        },
        FrameType::ForwardPacket => {
            if p.len() < KEY_LEN {
                return Err(FrameError::BadPayload);
            }
            let dst = copy_range(p.as_slice(), 0, KEY_LEN);
            let body = copy_range(p.as_slice(), KEY_LEN, p.len());
            Ok(Frame::ForwardPacket { dst: PublicKey { bytes: dst }, payload: body })
        },
        FrameType::WatchConns => {
            if p.len() != 0 {
                return Err(FrameError::BadPayload);
            }
            Ok(Frame::WatchConns)
        },
    }
}

} // verus!
