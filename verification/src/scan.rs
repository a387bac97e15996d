//! Specification of the UTF-8 decoding scan.
//!
//! The scan walks a byte sequence left to right.  At each step it classifies
//! the leading byte by its high bits, combines the low bits of the one to four
//! bytes of the sequence into a Unicode scalar value, and moves on by the
//! sequence's width.  A leading byte that matches none of the four recognized
//! patterns makes the whole input invalid; so does an input that ends in the
//! middle of a multi-byte sequence.
//!
//! The scan reads only the leading byte's pattern: it does not re-check
//! continuation bytes, overlong encodings or the surrogate range.  On byte
//! sequences that are valid UTF-8 it agrees exactly with vstd's
//! [`decode_utf8`](vstd::utf8::decode_utf8), which
//! [`lemma_scalars_of_valid_utf8`] proves.

use vstd::prelude::*;
use vstd::utf8::{
    codepoint_width_1, codepoint_width_2, codepoint_width_3, codepoint_width_4, decode_utf8,
    is_leading_byte_width_1, is_leading_byte_width_2, is_leading_byte_width_3,
    is_leading_byte_width_4, length_of_first_scalar, pop_first_scalar, valid_first_scalar,
    valid_utf8,
};

verus! {

/// Width in bytes of the UTF-8 sequence announced by the leading byte `b`,
/// or `0` when `b` matches none of the four leading-byte patterns.
pub open spec fn lead_width(b: u8) -> int {
    if is_leading_byte_width_1(b) {
        1
    } else if is_leading_byte_width_2(b) {
        2
    } else if is_leading_byte_width_3(b) {
        3
    } else if is_leading_byte_width_4(b) {
        4
    } else {
        0
    }
}

/// True when `s` starts with a recognized leading byte and is long enough to
/// hold the whole announced sequence, so that one scan step can succeed.
pub open spec fn head_ok(s: Seq<u8>) -> bool {
    &&& s.len() > 0
    &&& lead_width(s[0]) != 0
    &&& lead_width(s[0]) <= s.len()
}

/// The scalar value decoded by one scan step, combining the low bits of the
/// bytes of the first sequence.
pub open spec fn head_scalar(s: Seq<u8>) -> u32
    recommends
        head_ok(s),
{
    let w = lead_width(s[0]);
    if w == 1 {
        codepoint_width_1(s[0])
    } else if w == 2 {
        codepoint_width_2(s[0], s[1])
    } else if w == 3 {
        codepoint_width_3(s[0], s[1], s[2])
    } else {
        codepoint_width_4(s[0], s[1], s[2], s[3])
    }
}

/// True when the scan consumes all of `s` without meeting an unrecognized
/// leading byte or a truncated sequence.
pub open spec fn decodes(s: Seq<u8>) -> bool
    decreases s.len(),
{
    s.len() == 0 || (head_ok(s) && decodes(s.skip(lead_width(s[0]))))
}

/// The sequence of scalar values produced by the scan.
pub open spec fn scalars(s: Seq<u8>) -> Seq<u32>
    recommends
        decodes(s),
    decreases s.len(),
    when head_ok(s) ==> lead_width(s[0]) >= 1
{
    if !head_ok(s) {
        seq![]
    } else {
        seq![head_scalar(s)] + scalars(s.skip(lead_width(s[0])))
    }
}

/// One step of the scan, spelled out: on an input whose head is well formed,
/// the scalar sequence is the head scalar followed by the scalars of the rest.
pub proof fn lemma_scalars_step(s: Seq<u8>)
    requires
        head_ok(s),
    ensures
        scalars(s) == seq![head_scalar(s)] + scalars(s.skip(lead_width(s[0]))),
{
}

/// Every scalar the scan produces fits in 21 bits: the widest pattern
/// contributes 3 + 6 + 6 + 6 low bits.
pub proof fn lemma_head_scalar_bound(s: Seq<u8>)
    requires
        head_ok(s),
    ensures
        head_scalar(s) <= 0x1FFFFF,
        head_scalar(s) >= 0x10000 ==> lead_width(s[0]) == 4,
{
    let b0 = s[0];
    if lead_width(b0) == 1 {
        assert(codepoint_width_1(b0) <= 0x7F) by (bit_vector);
    } else if lead_width(b0) == 2 {
        let b1 = s[1];
        assert(codepoint_width_2(b0, b1) <= 0x7FF) by (bit_vector);
    } else if lead_width(b0) == 3 {
        let b1 = s[1];
        let b2 = s[2];
        assert(codepoint_width_3(b0, b1, b2) <= 0xFFFF) by (bit_vector);
    } else {
        let b1 = s[1];
        let b2 = s[2];
        let b3 = s[3];
        assert(codepoint_width_4(b0, b1, b2, b3) <= 0x1FFFFF) by (bit_vector);
    }
}

/// The leading-byte tests written with bit masks, as the scanning code
/// performs them, agree with the byte-range patterns that the spec
/// functions use.
pub proof fn lemma_mask_patterns(b: u8)
    ensures
        (b & 0x80 == 0x00) == is_leading_byte_width_1(b),
        (b & 0xe0 == 0xc0) == is_leading_byte_width_2(b),
        (b & 0xf0 == 0xe0) == is_leading_byte_width_3(b),
        (b & 0xf8 == 0xf0) == is_leading_byte_width_4(b),
{
    assert((b & 0x80 == 0x00) == (0x00 <= b <= 0x7f)) by (bit_vector);
    assert((b & 0xe0 == 0xc0) == (0xc0 <= b <= 0xdf)) by (bit_vector);
    assert((b & 0xf0 == 0xe0) == (0xe0 <= b <= 0xef)) by (bit_vector);
    assert((b & 0xf8 == 0xf0) == (0xf0 <= b <= 0xf7)) by (bit_vector);
}

/// On valid UTF-8 the lenient scan succeeds and produces exactly the scalar
/// values of the characters that vstd's `decode_utf8` reads from the bytes.
pub proof fn lemma_scalars_of_valid_utf8(bytes: Seq<u8>)
    requires
        valid_utf8(bytes),
    ensures
        decodes(bytes),
        scalars(bytes) == decode_utf8(bytes).map_values(|c: char| c as u32),
    decreases bytes.len(),
{
    if bytes.len() == 0 {
        assert(scalars(bytes) =~= decode_utf8(bytes).map_values(|c: char| c as u32));
    } else {
        lemma_head_agrees_with_first_scalar(bytes);
        lemma_head_scalar_bound(bytes);
        let rest = pop_first_scalar(bytes);
        assert(rest =~= bytes.skip(lead_width(bytes[0])));
        lemma_scalars_of_valid_utf8(rest);
        let v = vstd::utf8::decode_first_scalar(bytes);
        assert(v < 0xD800 || (0xE000 <= v && v <= 0x10FFFF));
        assert((v as char) as u32 == v);
        assert(scalars(bytes) =~= decode_utf8(bytes).map_values(|c: char| c as u32));
    }
}

/// On an input that starts with a well-formed scalar encoding, one scan step
/// reads the same width and the same value as vstd's first-scalar decoder.
proof fn lemma_head_agrees_with_first_scalar(bytes: Seq<u8>)
    requires
        valid_first_scalar(bytes),
        bytes.len() > 0,
    ensures
        head_ok(bytes),
        lead_width(bytes[0]) == length_of_first_scalar(bytes),
        head_scalar(bytes) == vstd::utf8::decode_first_scalar(bytes),
{
}

} // verus!
