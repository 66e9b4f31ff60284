//! The HTTP-upgrade side of the handshake: parsing the client's upgrade
//! request (through httparse), validating its headers, and building the
//! fixed `101 Switching Protocols` response followed by the `ServerKey`
//! frame in the same write.

use vstd::prelude::*;
use vstd::string::StringSliceAdditionalSpecFns;

use crate::bytes::{append_bytes, eq_bytes, eq_ignore_ascii_case, hex_encode, hex_of, lower_bytes};
use crate::crypto::{is_key, PublicKey};
use crate::frame::{encode_frame, frame_wf, spec_encode, Frame, FrameSpec};

verus! {

/// Hard bound on the initial HTTP message; reading this much or more, or
/// nothing at all, fails the handshake.
pub const UPGRADE_MSG_SIZE: usize = 4096;

/// One HTTP header: its name and its raw value.
pub struct HeaderPair {
    pub name: Vec<u8>,
    pub value: Vec<u8>,
}

impl View for HeaderPair {
    type V = (Seq<u8>, Seq<u8>);

    open spec fn view(&self) -> (Seq<u8>, Seq<u8>) {
        (self.name@, self.value@)
    }
}

/// The header list as name/value byte sequences.
pub open spec fn headers_view(hs: Seq<HeaderPair>) -> Seq<(Seq<u8>, Seq<u8>)> {
    hs.map(|i: int, h: HeaderPair| h@)
}

/// The headers of the one HTTP request in `b`, or nothing when `b` is not a
/// complete well-formed request head of at most 16 headers.
pub uninterp spec fn http_headers_of(b: Seq<u8>) -> Option<Seq<(Seq<u8>, Seq<u8>)>>;

/// Relies on httparse::Request::parse: parses one HTTP/1.1 request head;
/// the outcome is a function of the input bytes alone. `None` stands for a
/// malformed or incomplete request, and for one of more than the 16 headers
/// allowed here.
#[verifier::external_body]
fn parse_http_request(buf: &[u8]) -> (r: Option<Vec<HeaderPair>>)
    ensures
        (match r {
            Some(hs) => Some(headers_view(hs@)),
            None => None,
        }) == http_headers_of(buf@),
{
    let mut headers = [httparse::EMPTY_HEADER; 16];
    let mut req = httparse::Request::new(&mut headers);
    match req.parse(buf) {
        Ok(status) if status.is_complete() => Some(
            req.headers
                .iter()
                .map(|h| HeaderPair { name: h.name.as_bytes().to_vec(), value: h.value.to_vec() })
                .collect(),
        ),
        _ => None,
    }
}

/// One header passes: an `Upgrade` value must equal `websocket` or `derp`
/// and a `Connection` value must equal `upgrade`, case-insensitively;
/// every other header passes as it is.
pub open spec fn header_ok(h: (Seq<u8>, Seq<u8>)) -> bool {
    &&& (h.0 == "Upgrade".spec_bytes() ==> lower_bytes(h.1) == lower_bytes(
        "websocket".spec_bytes(),
    ) || lower_bytes(h.1) == lower_bytes("derp".spec_bytes()))
    &&& (h.0 == "Connection".spec_bytes() ==> lower_bytes(h.1) == lower_bytes(
        "upgrade".spec_bytes(),
    ))
}

/// Headers are validated only where present: a request with neither header
/// passes.
pub open spec fn headers_valid(hs: Seq<(Seq<u8>, Seq<u8>)>) -> bool {
    forall|i: int| 0 <= i < hs.len() ==> header_ok(hs[i])
}

/// Headers are validated only where present: a request bearing neither an
/// `Upgrade` nor a `Connection` header passes validation whatever else it
/// carries.
pub proof fn lemma_absent_headers_pass(hs: Seq<(Seq<u8>, Seq<u8>)>)
    requires
        forall|i: int|
            0 <= i < hs.len() ==> (#[trigger] hs[i]).0 != "Upgrade".spec_bytes() && hs[i].0
                != "Connection".spec_bytes(),
    ensures
        headers_valid(hs),
{
}

/// Checks every header as `headers_valid` says.
pub fn validate_headers(hs: &Vec<HeaderPair>) -> (r: bool)
    ensures
        r == headers_valid(headers_view(hs@)),
{
    let mut i: usize = 0;
    while i < hs.len()
        invariant
            i <= hs@.len(),
            forall|j: int| 0 <= j < i ==> header_ok(headers_view(hs@)[j]),
        decreases hs@.len() - i,
    {
        let h = &hs[i];
        if eq_bytes(h.name.as_slice(), "Upgrade".as_bytes()) {
            let ws = eq_ignore_ascii_case(h.value.as_slice(), "websocket".as_bytes());
            let dp = eq_ignore_ascii_case(h.value.as_slice(), "derp".as_bytes());
            if !ws && !dp {
                proof {
                    assert(!header_ok(headers_view(hs@)[i as int]));
                }
                return false;
            }
        }
        if eq_bytes(h.name.as_slice(), "Connection".as_bytes()) {
            if !eq_ignore_ascii_case(h.value.as_slice(), "upgrade".as_bytes()) {
                proof {
                    assert(!header_ok(headers_view(hs@)[i as int]));
                }
                return false;
            }
        }
        proof {
            assert(header_ok(headers_view(hs@)[i as int]));
        }
        i = i + 1;
    }
    true
}

/// Everything that can fail the HTTP phase of the handshake.
#[derive(Clone, Copy, PartialEq, Eq, Structural, Debug)]
pub enum UpgradeError {
    /// Zero bytes arrived.
    EmptyMessage,
    /// The initial message reached the hard bound.
    MessageTooBig,
    /// The bytes are not one complete well-formed HTTP request head.
    BadRequest,
    /// An `Upgrade` or `Connection` header holds a value other than the
    /// accepted ones.
    BadHeaders,
}

/// What the server decides on an initial message.
pub open spec fn upgrade_decision(msg: Seq<u8>) -> Result<(), UpgradeError> {
    if msg.len() == 0 {
        Err(UpgradeError::EmptyMessage)
    } else if msg.len() >= UPGRADE_MSG_SIZE {
        Err(UpgradeError::MessageTooBig)
    } else {
        match http_headers_of(msg) {
            None => Err(UpgradeError::BadRequest),
            Some(hs) => if headers_valid(hs) {
                Ok(())
            } else {
                Err(UpgradeError::BadHeaders)
            },
        }
    }
}

/// The fixed response head, up to the hex-encoded server key.
pub open spec fn response_head() -> Seq<u8> {
    "HTTP/1.1 101 Switching Protocols\r\nUpgrade: DERP\r\nConnection: Upgrade\r\nDerp-Version: 2\r\nDerp-Public-Key: ".spec_bytes()
}

/// The full upgrade response: fixed head, hex server key, blank line, and
/// the `ServerKey` frame in the same write.
pub open spec fn upgrade_response(server_pk: Seq<u8>) -> Seq<u8> {
    response_head() + hex_of(server_pk) + "\r\n\r\n".spec_bytes() + spec_encode(
        FrameSpec::ServerKey { public_key: server_pk },
    )
}

/// Builds the upgrade response for this server's public key.
pub fn build_upgrade_response(server_pk: &PublicKey) -> (r: Vec<u8>)
    requires
        is_key(server_pk@),
    ensures
        r@ == upgrade_response(server_pk@),
{
    let mut out: Vec<u8> = Vec::new();
    append_bytes(&mut out, "HTTP/1.1 101 Switching Protocols\r\nUpgrade: DERP\r\nConnection: Upgrade\r\nDerp-Version: 2\r\nDerp-Public-Key: ".as_bytes());
    let hex = hex_encode(server_pk.bytes.as_slice());
    append_bytes(&mut out, hex.as_slice());
    append_bytes(&mut out, "\r\n\r\n".as_bytes());
    let frame = encode_frame(&Frame::ServerKey { public_key: server_pk.clone_key() });
    append_bytes(&mut out, frame.as_slice());
    proof {
        assert(out@ =~= upgrade_response(server_pk@));
    }
    out
}

/// Handles the received initial message: checks its size, parses it as an
/// HTTP request, validates the headers, and on success hands back the
/// response bytes to write.
pub fn process_upgrade(msg: &[u8], server_pk: &PublicKey) -> (r: Result<Vec<u8>, UpgradeError>)
    requires
        is_key(server_pk@),
    ensures
        r matches Ok(resp) ==> upgrade_decision(msg@) == Ok::<(), UpgradeError>(()) && resp@
            == upgrade_response(server_pk@),
        r matches Err(e) ==> upgrade_decision(msg@) == Err::<(), UpgradeError>(e),
{
    if msg.len() == 0 {
        return Err(UpgradeError::EmptyMessage);
    }
    if msg.len() >= UPGRADE_MSG_SIZE {
        return Err(UpgradeError::MessageTooBig);
    }
    let headers = match parse_http_request(msg) {
        Some(hs) => hs,
        None => {
            return Err(UpgradeError::BadRequest);
        },
    };
    if !validate_headers(&headers) {
        return Err(UpgradeError::BadHeaders);
    }
    Ok(build_upgrade_response(server_pk))
}

} // verus!
