//! An incremental frame reader: bytes from the transport are fed in as they
//! arrive, and complete frames come out one at a time. A frame whose
//! declared length exceeds the hard maximum is rejected before its payload
//! is read.

use vstd::prelude::*;

use crate::bytes::{be32_val, copy_range, get_be32};
use crate::frame::{
    decode_frame, spec_decode, Frame, FrameError, FrameSpec, HEADER_LEN, MAX_FRAME_PAYLOAD,
};

verus! {

/// Whether a buffered byte sequence starts with a full header.
pub open spec fn header_ready(b: Seq<u8>) -> bool {
    b.len() >= HEADER_LEN
}

/// The payload length the buffered header declares.
pub open spec fn declared_len(b: Seq<u8>) -> int
    recommends
        header_ready(b),
{
    be32_val(b.subrange(1, HEADER_LEN as int)) as int
}

/// Whether the buffer holds one whole frame.
pub open spec fn frame_ready(b: Seq<u8>) -> bool {
    header_ready(b) && b.len() >= HEADER_LEN + declared_len(b)
}

/// Buffers transport bytes and yields complete frames.
pub struct FrameReader {
    buf: Vec<u8>,
}

impl View for FrameReader {
    type V = Seq<u8>;

    closed spec fn view(&self) -> Seq<u8> {
        self.buf@
    }
}

impl FrameReader {
    /// An empty reader.
    pub fn new() -> (r: FrameReader)
        ensures
            r@ == Seq::<u8>::empty(),
    {
        FrameReader { buf: Vec::new() }
    }

    /// Hands the reader the next bytes read from the transport.
    pub fn feed(&mut self, chunk: &[u8])
        ensures
            final(self)@ == old(self)@ + chunk@,
    {
        crate::bytes::append_bytes(&mut self.buf, chunk);
    }

    /// Takes the next complete frame out of the buffer.
    ///
    /// `Ok(None)` asks for more bytes; any error is connection-fatal and
    /// leaves the buffer as it was.
    pub fn next_frame(&mut self) -> (r: Result<Option<Frame>, FrameError>)
        ensures
            !header_ready(old(self)@) ==> r == Ok::<Option<Frame>, FrameError>(None)
                && final(self)@ == old(self)@,
            header_ready(old(self)@) && declared_len(old(self)@) > MAX_FRAME_PAYLOAD ==> r == Err::<
                Option<Frame>,
                FrameError,
            >(FrameError::Oversize),
            header_ready(old(self)@) && declared_len(old(self)@) <= MAX_FRAME_PAYLOAD && !frame_ready(
                old(self)@,
            ) ==> r == Ok::<Option<Frame>, FrameError>(None) && final(self)@ == old(self)@,
            frame_ready(old(self)@) && declared_len(old(self)@) <= MAX_FRAME_PAYLOAD ==> {
                let whole = old(self)@.subrange(0, HEADER_LEN + declared_len(old(self)@));
                &&& (r matches Ok(Some(f)) ==> spec_decode(whole) == Ok::<FrameSpec, FrameError>(
                    f@,
                ) && final(self)@ == old(self)@.subrange(
                    HEADER_LEN + declared_len(old(self)@),
                    old(self)@.len() as int,
                ))
                &&& (r matches Err(e) ==> spec_decode(whole) == Err::<FrameSpec, FrameError>(e)
                    && final(self)@ == old(self)@)
                &&& !(r matches Ok(None))
            },
            r is Err ==> final(self)@ == old(self)@,
    {
        if self.buf.len() < HEADER_LEN {
            return Ok(None);
        }
        let n32 = get_be32(self.buf.as_slice(), 1);
        let n = n32 as usize;
        if n > MAX_FRAME_PAYLOAD {
            return Err(FrameError::Oversize);
        }
        if self.buf.len() < HEADER_LEN + n {
            return Ok(None);
        }
        let whole = copy_range(self.buf.as_slice(), 0, HEADER_LEN + n);
        let rest = copy_range(self.buf.as_slice(), HEADER_LEN + n, self.buf.len());
        match decode_frame(whole.as_slice()) {
            Ok(f) => {
                self.buf = rest;
                Ok(Some(f))
            },
            Err(e) => Err(e),
        }
    }
}

} // verus!
