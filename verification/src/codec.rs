//! The frame codec: cuts a growing byte buffer into frames at the marker
//! `0x55 0xAA` and keeps what is not yet a whole frame for the next call.

use vstd::prelude::*;
use vstd::slice::slice_subrange;
use vstd::slice::slice_to_vec;
use crate::checksum::frame_valid;
use crate::checksum::verify_frame;
use crate::checksum::Checksum;
use crate::framing::delimiter;
use crate::framing::frames_of;
use crate::framing::frames_within;
use crate::framing::last_marker;
use crate::framing::lemma_frame_count;
use crate::framing::lemma_last_marker;
use crate::framing::lemma_markers_apart;
use crate::framing::lemma_no_marker_between;
use crate::framing::marker_at;
use crate::framing::markers_of;
use crate::framing::retained_of;

verus! {

/// One decoded frame.
#[derive(Clone, Debug, PartialEq, Eq)]
pub struct Frame {
    /// When the chunk that closed the frame was read, in milliseconds since
    /// the epoch.
    pub timestamp_ms: u64,
    /// The bytes between the two markers.
    pub payload: Vec<u8>,
    /// Whether the frame passed the codec's checksum; `true` where checking
    /// is disabled.
    pub valid: bool,
}

/// Why a stream could not be brought to an end.
#[derive(Clone, Copy, Debug, PartialEq, Eq, Structural)]
pub enum CodecError {
    /// The stream has ended, no frame could be cut, and bytes are left over.
    BytesRemaining,
}

/// Whether `frames` are the frames with these payloads, in this order, each
/// stamped with `timestamp_ms` and judged under `policy`.
pub open spec fn frames_match(
    frames: Seq<Frame>,
    payloads: Seq<Seq<u8>>,
    timestamp_ms: u64,
    policy: Checksum,
) -> bool {
    &&& frames.len() == payloads.len()
    &&& forall|i: int|
        0 <= i < frames.len() ==> {
            &&& (#[trigger] frames[i]).payload@ == payloads[i]
            &&& frames[i].timestamp_ms == timestamp_ms
            &&& frames[i].valid == frame_valid(policy, payloads[i])
        }
}

/// Whether `needle` stands at index `i` of `haystack`.
pub open spec fn occurs_at(haystack: Seq<u8>, needle: Seq<u8>, i: int) -> bool {
    0 <= i && i + needle.len() <= haystack.len() && haystack.subrange(i, i + needle.len())
        == needle
}

/// Calls `memchr::memmem::find`, which returns the index of the first
/// occurrence of `needle` in `haystack`, and `None` where there is none.
#[verifier::external_body]
fn find(haystack: &[u8], needle: &[u8]) -> (found: Option<usize>)
    ensures
        match found {
            Some(i) => occurs_at(haystack@, needle@, i as int) && forall|j: int|
                0 <= j < i ==> !occurs_at(haystack@, needle@, j),
            None => forall|j: int| !occurs_at(haystack@, needle@, j),
        },
{
    memchr::memmem::find(haystack, needle)
}

/// The marker as bytes.
fn delimiter_bytes() -> (bytes: Vec<u8>)
    ensures
        bytes@ == delimiter(),
{
    let mut bytes: Vec<u8> = Vec::new();
    bytes.push(0x55);
    bytes.push(0xAA);
    proof {
        assert(bytes@ =~= delimiter());
    }
    bytes
}

/// Index of the first marker of `bytes` at or after `from`.
pub fn next_marker(bytes: &[u8], from: usize) -> (found: Option<usize>)
    ensures
        match found {
            Some(q) => from <= q && marker_at(bytes@, q as int) && forall|j: int|
                from <= j < q ==> !marker_at(bytes@, j),
            None => forall|j: int| from <= j ==> !marker_at(bytes@, j),
        },
{
    if from > bytes.len() {
        return None;
    }
    let needle = delimiter_bytes();
    let rest = slice_subrange(bytes, from, bytes.len());
    let found = find(rest, needle.as_slice());
    proof {
        assert forall|j: int| from <= j implies (marker_at(bytes@, j) <==> occurs_at(
            rest@,
            needle@,
            j - from,
        )) by {
            if marker_at(bytes@, j) {
                assert(rest@.subrange(j - from, j - from + 2) =~= needle@);
            }
            if occurs_at(rest@, needle@, j - from) {
                let w = rest@.subrange(j - from, j - from + 2);
                assert(w[0] == 0x55u8 && w[1] == 0xAAu8);
            }
        }
    }
    match found {
        Some(i) => {
            proof {
                assert(occurs_at(rest@, needle@, i as int));
                assert(marker_at(bytes@, from + i));
                assert forall|j: int| from <= j < from + i implies !marker_at(bytes@, j) by {
                    assert(!occurs_at(rest@, needle@, j - from));
                }
            }
            Some(from + i)
        },
        None => {
            proof {
                assert forall|j: int| from <= j implies !marker_at(bytes@, j) by {
                    assert(!occurs_at(rest@, needle@, j - from));
                }
            }
            None
        },
    }
}

/// The frame codec. It holds the link's checksum policy; the bytes carried
/// from one call to the next live in a buffer that the caller owns.
#[derive(Clone, Copy, Debug, PartialEq, Eq, Structural, PartialOrd, Ord, Hash)]
pub struct LineCodec {
    checksum: Checksum,
}

impl LineCodec {
    /// The checksum policy of this codec.
    pub closed spec fn policy(&self) -> Checksum {
        self.checksum
    }

    /// A codec that checks no checksum.
    pub fn new() -> (codec: LineCodec)
        ensures
            codec.policy() == Checksum::Disabled,
    {
        LineCodec { checksum: Checksum::Disabled }
    }

    /// A codec that checks each frame with CRC16/XMODEM, the check of choice
    /// for a link that has one. A link that uses the additive sum says so
    /// through [`LineCodec::with_checksum`].
    pub fn checked() -> (codec: LineCodec)
        ensures
            codec.policy() == Checksum::Crc16Xmodem,
    {
        LineCodec { checksum: Checksum::Crc16Xmodem }
    }

    /// A codec that checks each frame under `checksum`.
    pub fn with_checksum(checksum: Checksum) -> (codec: LineCodec)
        ensures
            codec.policy() == checksum,
    {
        LineCodec { checksum }
    }

    /// The checksum policy of this codec.
    pub fn checksum(&self) -> (kind: Checksum)
        ensures
            kind == self.policy(),
    {
        self.checksum
    }

    /// Appends `new_bytes` to `buffer`, cuts every whole frame out of it and
    /// returns the frames in stream order, each stamped with `timestamp_ms`
    /// and judged under the codec's checksum. A stream with `k` markers gives
    /// `k - 1` frames. Afterwards `buffer` holds what is not yet a whole
    /// frame: from the last marker on once a frame was cut, else everything.
    pub fn feed(&self, buffer: &mut Vec<u8>, new_bytes: &[u8], timestamp_ms: u64) -> (frames: Vec<
        Frame,
    >)
        ensures
            final(buffer)@ == retained_of(old(buffer)@ + new_bytes@),
            frames_match(
                frames@,
                frames_of(old(buffer)@ + new_bytes@),
                timestamp_ms,
                self.policy(),
            ),
            markers_of(old(buffer)@ + new_bytes@) >= 1 ==> frames@.len() + 1 == markers_of(
                old(buffer)@ + new_bytes@,
            ),
            markers_of(old(buffer)@ + new_bytes@) == 0 ==> frames@.len() == 0 && final(buffer)@
                == old(buffer)@ + new_bytes@,
    {
        buffer.extend_from_slice(new_bytes);
        let ghost s = buffer@;
        let n = buffer.len();
        let mut frames: Vec<Frame> = Vec::new();
        let mut opened: Option<usize> = None;
        let mut cursor: usize = 0;
        let mut scanning = true;
        while scanning
            invariant
                buffer@ == s,
                s == old(buffer)@ + new_bytes@,
                !scanning ==> last_marker(s, n as int) == last_marker(s, cursor as int)
                    && frames_within(s, n as int) == frames_within(s, cursor as int),
                n == s.len(),
                cursor <= n,
                match opened {
                    Some(p) => cursor == p + 2 && last_marker(s, cursor as int) == p,
                    None => cursor == 0,
                },
                frames@.len() == frames_within(s, cursor as int).len(),
                forall|i: int|
                    0 <= i < frames@.len() ==> (#[trigger] frames@[i]).payload@ == frames_within(
                        s,
                        cursor as int,
                    )[i],
                forall|i: int|
                    0 <= i < frames@.len() ==> (#[trigger] frames@[i]).timestamp_ms
                        == timestamp_ms,
                forall|i: int|
                    0 <= i < frames@.len() ==> (#[trigger] frames@[i]).valid == frame_valid(
                        self.policy(),
                        frames@[i].payload@,
                    ),
            decreases n - cursor + if scanning { 1int } else { 0int },
        {
            let found = next_marker(buffer.as_slice(), cursor);
            proof {
                if opened.is_some() {
                    lemma_last_marker(s, cursor as int);
                    lemma_markers_apart(s, cursor - 2);
                }
            }
            match found {
                None => {
                    proof {
                        lemma_no_marker_between(s, cursor as int, n as int);
                    }
                    scanning = false;
                },
                Some(q) => {
                    proof {
                        lemma_no_marker_between(s, cursor as int, q + 1);
                        lemma_markers_apart(s, q as int);
                    }
                    match opened {
                        Some(p) => {
                            let payload = slice_to_vec(slice_subrange(buffer.as_slice(), p + 2, q));
                            let valid = verify_frame(self.checksum, payload.as_slice());
                            frames.push(Frame { timestamp_ms, payload, valid });
                        },
                        None => {},
                    }
                    opened = Some(q);
                    cursor = q + 2;
                },
            }
        }
        proof {
            lemma_frame_count(s, n as int);
            lemma_last_marker(s, n as int);
        }
        if frames.len() > 0 {
            match opened {
                Some(p) => {
                    let rest = buffer.split_off(p);
                    *buffer = rest;
                },
                None => {},
            }
        } else {
            proof {
                assert(retained_of(s) =~= s);
            }
        }
        frames
    }

    /// Cuts what is left at the end of the stream. Frames that are still
    /// whole come out as from [`LineCodec::feed`]. Where there is none, an
    /// empty buffer is a clean end and anything else is an error; the buffer
    /// then stays as it is.
    pub fn decode_eof(&self, buffer: &mut Vec<u8>, timestamp_ms: u64) -> (result: Result<
        Vec<Frame>,
        CodecError,
    >)
        ensures
            final(buffer)@ == retained_of(old(buffer)@),
            match result {
                Ok(frames) => frames_match(
                    frames@,
                    frames_of(old(buffer)@),
                    timestamp_ms,
                    self.policy(),
                ) && (frames@.len() > 0 || old(buffer)@.len() == 0),
                Err(e) => e == CodecError::BytesRemaining && frames_of(old(buffer)@).len() == 0
                    && old(buffer)@.len() > 0 && final(buffer)@ == old(buffer)@,
            },
    {
        let nothing: Vec<u8> = Vec::new();
        proof {
            assert(old(buffer)@ + nothing@ =~= old(buffer)@);
            crate::framing::lemma_retained_shape(old(buffer)@);
        }
        let frames = self.feed(buffer, nothing.as_slice(), timestamp_ms);
        if frames.len() == 0 && buffer.len() > 0 {
            Err(CodecError::BytesRemaining)
        } else {
            Ok(frames)
        }
    }
}

} // verus!
