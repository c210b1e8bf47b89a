//! The two frame checksums: CRC16/XMODEM and the additive 16-bit sum.
//!
//! A checked frame ends in a two-byte field, low byte first, that holds the
//! checksum of the bytes before it. Which algorithm a link uses is declared
//! by the caller; nothing here guesses it.

use vstd::prelude::*;
use vstd::arithmetic::div_mod::lemma_add_mod_noop;

verus! {

/// The integrity check that a link applies to its frames.
#[derive(Clone, Copy, Debug, PartialEq, Eq, Structural, PartialOrd, Ord, Hash)]
pub enum Checksum {
    /// Frames carry no checksum field; every frame counts as valid.
    Disabled,
    /// CRC-16 with the XMODEM polynomial.
    Crc16Xmodem,
    /// The sum of the bytes, modulo 65536.
    AdditiveSum,
}

/// The CRC16/XMODEM value of a byte sequence, as the `crc16` crate computes
/// it.
pub uninterp spec fn xmodem_crc(bytes: Seq<u8>) -> u16;

/// The sum of the bytes, unbounded.
pub open spec fn byte_total(s: Seq<u8>) -> nat
    decreases s.len(),
{
    if s.len() == 0 {
        0
    } else {
        byte_total(s.drop_last()) + s.last() as nat
    }
}

/// The additive checksum: the sum of the bytes, modulo 65536.
pub open spec fn additive_sum(s: Seq<u8>) -> int {
    byte_total(s) as int % 0x10000
}

/// The checksum of `bytes` under `kind`; `None` where checking is disabled.
pub open spec fn checksum_value(kind: Checksum, bytes: Seq<u8>) -> Option<u16> {
    match kind {
        Checksum::Disabled => None,
        Checksum::Crc16Xmodem => Some(xmodem_crc(bytes)),
        Checksum::AdditiveSum => Some(additive_sum(bytes) as u16),
    }
}

/// The value of the two-byte field at the end of `frame`, low byte first.
pub open spec fn trailing_field(frame: Seq<u8>) -> int
    recommends
        frame.len() >= 2,
{
    frame[frame.len() - 2] as int + 256 * frame[frame.len() - 1] as int
}

/// Whether `frame` passes the check of `kind`: with checking disabled always;
/// else where it holds a trailing field, and that field is the checksum of
/// the bytes before it.
pub open spec fn frame_valid(kind: Checksum, frame: Seq<u8>) -> bool {
    match kind {
        Checksum::Disabled => true,
        _ => frame.len() >= 2 && checksum_value(kind, frame.subrange(0, frame.len() - 2))
            == Some(trailing_field(frame) as u16),
    }
}

/// Calls `crc16::State::<crc16::XMODEM>::calculate`. The contract only names
/// the value: the CRC of a byte sequence is a function of those bytes.
#[verifier::external_body]
fn xmodem(bytes: &[u8]) -> (crc: u16)
    ensures
        crc == xmodem_crc(bytes@),
{
    crc16::State::<crc16::XMODEM>::calculate(bytes)
}

/// The additive 16-bit checksum of `bytes`.
pub fn additive_checksum(bytes: &[u8]) -> (sum: u16)
    ensures
        sum == additive_sum(bytes@),
{
    let mut acc: u32 = 0;
    let mut i: usize = 0;
    while i < bytes.len()
        invariant
            i <= bytes.len(),
            acc == additive_sum(bytes@.subrange(0, i as int)),
        decreases bytes.len() - i,
    {
        proof {
            let before = bytes@.subrange(0, i as int);
            let after = bytes@.subrange(0, i as int + 1);
            assert(after.drop_last() =~= before);
            assert(after.last() == bytes@[i as int]);
            lemma_add_mod_noop(byte_total(before) as int, bytes@[i as int] as int, 0x10000);
        }
        acc = (acc + bytes[i] as u32) % 0x10000;
        i += 1;
    }
    proof {
        assert(bytes@.subrange(0, i as int) =~= bytes@);
    }
    acc as u16
}

/// The checksum of `bytes` under `kind`; `None` where checking is disabled.
pub fn checksum_of(kind: Checksum, bytes: &[u8]) -> (value: Option<u16>)
    ensures
        value == checksum_value(kind, bytes@),
{
    match kind {
        Checksum::Disabled => None,
        Checksum::Crc16Xmodem => Some(xmodem(bytes)),
        Checksum::AdditiveSum => Some(additive_checksum(bytes)),
    }
}

/// The two bytes of a checksum as they stand on the wire, low byte first.
pub fn little_endian(value: u16) -> (bytes: Vec<u8>)
    ensures
        bytes@.len() == 2,
        bytes@[0] as int == value as int % 256,
        bytes@[1] as int == value as int / 256,
{
    let mut bytes: Vec<u8> = Vec::new();
    bytes.push((value % 256) as u8);
    bytes.push((value / 256) as u8);
    bytes
}

/// Whether the trailing field of `frame` holds `computed`. A frame too short
/// to hold a field does not match.
pub fn field_matches(computed: u16, frame: &[u8]) -> (ok: bool)
    ensures
        ok == (frame@.len() >= 2 && trailing_field(frame@) == computed as int),
{
    let n = frame.len();
    if n < 2 {
        return false;
    }
    let low: u16 = frame[n - 2] as u16;
    let high: u16 = frame[n - 1] as u16;
    low + 256 * high == computed
}

/// Checks `frame` under `kind`.
pub fn verify_frame(kind: Checksum, frame: &[u8]) -> (valid: bool)
    ensures
        valid == frame_valid(kind, frame@),
{
    let n = frame.len();
    match kind {
        Checksum::Disabled => true,
        Checksum::Crc16Xmodem => {
            if n < 2 {
                false
            } else {
                let body = vstd::slice::slice_subrange(frame, 0, n - 2);
                field_matches(xmodem(body), frame)
            }
        },
        Checksum::AdditiveSum => {
            if n < 2 {
                false
            } else {
                let body = vstd::slice::slice_subrange(frame, 0, n - 2);
                field_matches(additive_checksum(body), frame)
            }
        },
    }
}

} // verus!
