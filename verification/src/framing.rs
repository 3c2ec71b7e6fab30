//! Byte stuffing of frames, done by the `postcard-cobs` crate.
//!
//! A stuffed frame holds no zero byte, so a zero byte can close it. What the
//! crate computes is not restated here: each result has a name, and the
//! contracts below tie the calls to those names.

use vstd::prelude::*;

verus! {

/// What a scan for the first frame of a byte sequence found.
#[derive(Debug, Clone, Copy, PartialEq, Eq)]
pub enum FrameScan {
    /// A frame ends within the bytes; it takes up the first `used` of them,
    /// the closing zero included.
    Complete { used: usize },
    /// The bytes end before a frame does.
    Incomplete,
    /// The bytes do not start with a frame.
    Malformed,
}

/// The result of `postcard_cobs::CobsDecoder::push` on `data`, for a decoder
/// that was just made over a destination of `capacity` bytes.
pub uninterp spec fn cobs_scan(data: Seq<u8>, capacity: nat) -> FrameScan;

/// The result of `postcard_cobs::decode_in_place` on `frame`: the bytes it
/// leaves at the front of the buffer, or `None` where it reports an error.
pub uninterp spec fn cobs_unstuffed(frame: Seq<u8>) -> Option<Seq<u8>>;

/// The bytes that `postcard_cobs::encode` writes for `payload`.
pub uninterp spec fn cobs_stuffed(payload: Seq<u8>) -> Seq<u8>;

/// Makes a `postcard_cobs::CobsDecoder` over `scratch` and calls its `push`
/// on `data`. Not proved: that the outcome is the one named `cobs_scan`; that
/// a frame reported complete takes up at least one and at most all of the
/// bytes of `data` (`push` counts the bytes it has fed, one by one, and
/// reports the count with the byte that completes the frame); and that this
/// byte is a zero (the decoder completes a frame on no other byte).
#[verifier::external_body]
pub(crate) fn cobs_push(scratch: &mut Vec<u8>, data: &[u8]) -> (r: FrameScan)
    ensures
        r == cobs_scan(data@, old(scratch)@.len() as nat),
        final(scratch)@.len() == old(scratch)@.len(),
        r matches FrameScan::Complete { used } ==> 1 <= used <= data@.len() && data@[used - 1]
            == 0,
{
    match postcard_cobs::CobsDecoder::new(scratch.as_mut_slice()).push(data) {
        Ok(Some((_, used))) => FrameScan::Complete { used },
        Ok(None) => FrameScan::Incomplete,
        Err(_) => FrameScan::Malformed,
    }
}

/// Calls `postcard_cobs::decode_in_place` on a copy of `frame`. Not proved:
/// that the bytes it leaves, or its error, are what `cobs_unstuffed` names.
#[verifier::external_body]
pub(crate) fn cobs_decode(frame: &[u8]) -> (r: Option<Vec<u8>>)
    ensures
        match r {
            Some(payload) => cobs_unstuffed(frame@) == Some(payload@),
            None => cobs_unstuffed(frame@) is None,
        },
{
    let mut buf = frame.to_vec();
    match postcard_cobs::decode_in_place(buf.as_mut_slice()) {
        Ok(n) => {
            buf.truncate(n);
            Some(buf)
        },
        Err(()) => None,
    }
}

/// Calls `postcard_cobs::encode` on `payload`, with a destination of
/// `postcard_cobs::max_encoding_length` bytes. Not proved: that the bytes
/// written are what `cobs_stuffed` names, and that none of them is zero,
/// which is what the encoding is for. The payload is kept below 254 bytes,
/// the length of the longest run that takes a single length byte.
#[verifier::external_body]
pub(crate) fn cobs_encode(payload: &[u8]) -> (r: Vec<u8>)
    requires
        payload@.len() < 254,
    ensures
        r@ == cobs_stuffed(payload@),
        forall|i: int| 0 <= i < r@.len() ==> r@[i] != 0,
{
    let mut dest = vec![0u8; postcard_cobs::max_encoding_length(payload.len())];
    let n: usize = postcard_cobs::encode(payload, dest.as_mut_slice());
    dest.truncate(n);
    dest
}

} // verus!
