//! Specification of the UTF-16 encoding, and the round trip back to scalars.
//!
//! Each Unicode scalar value becomes one 16-bit code unit when it is below
//! `0x10000`, and a surrogate pair otherwise: a high surrogate
//! `0xD800 + (v - 0x10000) / 0x400` followed by a low surrogate
//! `0xDC00 + (v - 0x10000) % 0x400`.  [`lemma_round_trip_scalars`] proves that
//! decoding such a unit sequence restores the scalar sequence exactly.

use vstd::prelude::*;
use vstd::arithmetic::div_mod::lemma_fundamental_div_mod;
use vstd::utf8::{char_is_scalar, decode_utf8, encode_utf8, is_scalar, valid_utf8};
use crate::scan;

verus! {

/// The one or two UTF-16 code units that encode the scalar value `v`.
pub open spec fn units_of_scalar(v: u32) -> Seq<u16>
    recommends
        v <= 0x10FFFF,
{
    if v >= 0x10000 {
        seq![
            (0xD800 + (v - 0x10000) / 0x400) as u16,
            (0xDC00 + (v - 0x10000) % 0x400) as u16,
        ]
    } else {
        seq![v as u16]
    }
}

/// The UTF-16 code units of a whole scalar sequence, in order.
pub open spec fn units_of_scalars(vs: Seq<u32>) -> Seq<u16>
    decreases vs.len(),
{
    if vs.len() == 0 {
        seq![]
    } else {
        units_of_scalar(vs[0]) + units_of_scalars(vs.drop_first())
    }
}

/// The UTF-16 encoding of a byte input, as read by the UTF-8 scan.
pub open spec fn wide_units(bytes: Seq<u8>) -> Seq<u16> {
    units_of_scalars(scan::scalars(bytes))
}

/// The UTF-16 encoding of a character sequence.
pub open spec fn wide_units_of_chars(cs: Seq<char>) -> Seq<u16> {
    units_of_scalars(cs.map_values(|c: char| c as u32))
}

/// True when `u` is the first unit of a surrogate pair.
pub open spec fn is_high_surrogate(u: u16) -> bool {
    0xD800 <= u <= 0xDBFF
}

/// True when `u` is the second unit of a surrogate pair.
pub open spec fn is_low_surrogate(u: u16) -> bool {
    0xDC00 <= u <= 0xDFFF
}

/// True when a UTF-16 decoder can take one scalar off the front of `us`:
/// the sequence must not begin with an unpaired or reversed surrogate.
pub open spec fn wide_head_ok(us: Seq<u16>) -> bool {
    &&& us.len() > 0
    &&& !is_low_surrogate(us[0])
    &&& is_high_surrogate(us[0]) ==> us.len() >= 2 && is_low_surrogate(us[1])
}

/// How many units the first scalar of `us` occupies.
pub open spec fn wide_head_width(us: Seq<u16>) -> int
    recommends
        us.len() > 0,
{
    if is_high_surrogate(us[0]) {
        2
    } else {
        1
    }
}

/// The scalar value encoded at the front of `us`.
pub open spec fn wide_head_scalar(us: Seq<u16>) -> u32
    recommends
        wide_head_ok(us),
{
    if is_high_surrogate(us[0]) {
        (0x10000 + (us[0] - 0xD800) * 0x400 + (us[1] - 0xDC00)) as u32
    } else {
        us[0] as u32
    }
}

/// True when all of `us` decodes as UTF-16 without meeting a lone surrogate.
pub open spec fn wide_decodes(us: Seq<u16>) -> bool
    decreases us.len(),
{
    us.len() == 0 || (wide_head_ok(us) && wide_decodes(us.skip(wide_head_width(us))))
}

/// The scalar values read back from the UTF-16 unit sequence `us`.
pub open spec fn wide_scalars(us: Seq<u16>) -> Seq<u32>
    recommends
        wide_decodes(us),
    decreases us.len(),
    when wide_head_ok(us) ==> wide_head_width(us) >= 1
{
    if !wide_head_ok(us) {
        seq![]
    } else {
        seq![wide_head_scalar(us)] + wide_scalars(us.skip(wide_head_width(us)))
    }
}

/// Encoding a scalar sequence and prepending nothing: the unit sequence of a
/// cons is the head's units followed by the tail's units.
pub proof fn lemma_units_cons(v: u32, rest: Seq<u32>)
    ensures
        units_of_scalars(seq![v] + rest) == units_of_scalar(v) + units_of_scalars(rest),
{
    let s = seq![v] + rest;
    assert(s.drop_first() =~= rest);
    assert(s[0] == v);
}

/// Round trip over scalar sequences: encoding valid Unicode scalar values to
/// UTF-16 and decoding the unit sequence again restores the scalars exactly.
pub proof fn lemma_round_trip_scalars(vs: Seq<u32>)
    requires
        forall|i: int| 0 <= i < vs.len() ==> is_scalar(#[trigger] vs[i]),
    ensures
        wide_decodes(units_of_scalars(vs)),
        wide_scalars(units_of_scalars(vs)) == vs,
    decreases vs.len(),
{
    if vs.len() == 0 {
        assert(wide_scalars(units_of_scalars(vs)) =~= vs);
    } else {
        let v = vs[0];
        let rest = vs.drop_first();
        assert(forall|i: int| 0 <= i < rest.len() ==> is_scalar(#[trigger] rest[i]));
        lemma_round_trip_scalars(rest);
        let us = units_of_scalars(vs);
        let tail = units_of_scalars(rest);
        if v >= 0x10000 {
            let x = v - 0x10000;
            lemma_fundamental_div_mod(x, 0x400);
            assert(x / 0x400 <= 0x3FF);
            let hi = (0xD800 + x / 0x400) as u16;
            let lo = (0xDC00 + x % 0x400) as u16;
            assert(us == seq![hi, lo] + tail);
            assert(is_high_surrogate(hi) && is_low_surrogate(lo));
            assert(wide_head_ok(us));
            assert(wide_head_scalar(us) == v);
            assert(us.skip(2) =~= tail);
        } else {
            assert(us == seq![v as u16] + tail);
            assert(!is_low_surrogate(us[0]) && !is_high_surrogate(us[0]));
            assert(wide_head_ok(us));
            assert(wide_head_scalar(us) == v);
            assert(us.skip(1) =~= tail);
        }
        assert(wide_scalars(us) =~= vs);
    }
}

/// Round trip over a byte input: on valid UTF-8, decoding the bytes to
/// scalar values, encoding them to UTF-16 and decoding that unit sequence
/// again reproduces the scalar sequence exactly.
pub proof fn lemma_round_trip(bytes: Seq<u8>)
    requires
        valid_utf8(bytes),
    ensures
        scan::decodes(bytes),
        wide_decodes(wide_units(bytes)),
        wide_scalars(wide_units(bytes)) == scan::scalars(bytes),
{
    scan::lemma_scalars_of_valid_utf8(bytes);
    let vs = scan::scalars(bytes);
    let cs = decode_utf8(bytes);
    assert forall|i: int| 0 <= i < vs.len() implies is_scalar(#[trigger] vs[i]) by {
        char_is_scalar(cs[i]);
    }
    lemma_round_trip_scalars(vs);
}

/// Round trip over characters: the UTF-16 encoding of any character
/// sequence decodes without error, back to exactly the scalar values of
/// those characters.
pub proof fn lemma_round_trip_chars(cs: Seq<char>)
    ensures
        wide_decodes(wide_units_of_chars(cs)),
        wide_scalars(wide_units_of_chars(cs)) == cs.map_values(|c: char| c as u32),
{
    let vs = cs.map_values(|c: char| c as u32);
    assert forall|i: int| 0 <= i < vs.len() implies is_scalar(#[trigger] vs[i]) by {
        char_is_scalar(cs[i]);
    }
    lemma_round_trip_scalars(vs);
}

/// The UTF-16 units computed from the UTF-8 bytes of a character sequence
/// are the UTF-16 units of the characters themselves.
pub proof fn lemma_wide_units_of_encoded_chars(cs: Seq<char>)
    ensures
        scan::decodes(encode_utf8(cs)),
        wide_units(encode_utf8(cs)) == wide_units_of_chars(cs),
{
    broadcast use vstd::utf8::encode_utf8_valid_utf8, vstd::utf8::encode_utf8_decode_utf8;

    scan::lemma_scalars_of_valid_utf8(encode_utf8(cs));
}

} // verus!
