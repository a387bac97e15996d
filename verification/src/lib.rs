//! Conversion of UTF-8 input into UTF-16 code-unit sequences.
//!
//! The library decodes a UTF-8 byte sequence into Unicode scalar values and
//! re-encodes each scalar as one or two 16-bit UTF-16 code units.  It offers
//! the unit count (`wide_len`), the unit sequence itself (`utf16_units`), and
//! a null-terminated variant (`utf16_units_null_terminated`), together with
//! fallible byte-level entry points that reject malformed input.

use vstd::prelude::*;

pub mod scan;
pub mod wide;

verus! {

/// Always holds; kept as a tiny guard predicate for callers that want an
/// unconditional check.
pub fn always_true() -> (b: bool)
    ensures
        b,
{
    true
}

/// Number of UTF-16 code units that the byte input will occupy, or `None`
/// when a leading byte matches none of the four recognized patterns or the
/// input ends in the middle of a multi-byte sequence.
pub fn wide_len_bytes(bytes: &[u8]) -> (r: Option<usize>)
    ensures
        r is Some <==> scan::decodes(bytes@),
        r matches Some(n) ==> n == wide::wide_units(bytes@).len(),
{
    let n = bytes.len();
    let mut length: usize = 0;
    let mut index: usize = 0;
    proof {
        assert(bytes@.skip(0) =~= bytes@);
    }
    while index < n
        invariant
            n == bytes@.len(),
            index <= n,
            length <= index,
            scan::decodes(bytes@) == scan::decodes(bytes@.skip(index as int)),
            scan::decodes(bytes@) ==> wide::wide_units(bytes@).len() == length
                + wide::units_of_scalars(scan::scalars(bytes@.skip(index as int))).len(),
        decreases n - index,
    {
        let ghost suffix = bytes@.skip(index as int);
        let b0 = bytes[index];
        proof {
            scan::lemma_mask_patterns(b0);
            assert(suffix[0] == b0);
            assert(suffix.len() == n - index);
        }
        let chr: u32;
        let width: usize;
        if b0 & 0x80 == 0x00 {
            chr = b0 as u32;
            width = 1;
            proof {
                assert(b0 & 0x7f == b0) by (bit_vector)
                    requires
                        b0 & 0x80 == 0x00,
                ;
            }
        } else if b0 & 0xe0 == 0xc0 {
            if n - index < 2 {
                return None;
            }
            let b1 = bytes[index + 1];
            chr = (((b0 & 0x1f) as u32) << 6) | ((b1 & 0x3f) as u32);
            width = 2;
            proof {
                assert(suffix[1] == b1);
            }
        } else if b0 & 0xf0 == 0xe0 {
            if n - index < 3 {
                return None;
            }
            let b1 = bytes[index + 1];
            let b2 = bytes[index + 2];
            chr = (((b0 & 0x0f) as u32) << 12) | (((b1 & 0x3f) as u32) << 6) | ((b2
                & 0x3f) as u32);
            width = 3;
            proof {
                assert(suffix[1] == b1 && suffix[2] == b2);
            }
        } else if b0 & 0xf8 == 0xf0 {
            if n - index < 4 {
                return None;
            }
            let b1 = bytes[index + 1];
            let b2 = bytes[index + 2];
            let b3 = bytes[index + 3];
            chr = (((b0 & 0x07) as u32) << 18) | (((b1 & 0x3f) as u32) << 12) | (((b2
                & 0x3f) as u32) << 6) | ((b3 & 0x3f) as u32);
            width = 4;
            proof {
                assert(suffix[1] == b1 && suffix[2] == b2 && suffix[3] == b3);
            }
        } else {
            proof {
                assert(scan::lead_width(b0) == 0);
                assert(!scan::head_ok(suffix));
            }
            return None;
        }
        proof {
            assert(scan::head_ok(suffix));
            assert(scan::lead_width(b0) == width);
            assert(chr == scan::head_scalar(suffix));
            scan::lemma_head_scalar_bound(suffix);
            scan::lemma_scalars_step(suffix);
            wide::lemma_units_cons(chr, scan::scalars(suffix.skip(width as int)));
            assert(suffix.skip(width as int) =~= bytes@.skip(index as int + width as int));
        }
        if chr >= 0x10000 {
            length += 2;
        } else {
            length += 1;
        }
        index += width;
    }
    proof {
        assert(bytes@.skip(n as int) =~= Seq::<u8>::empty());
        assert(scan::scalars(bytes@.skip(n as int)) =~= Seq::<u32>::empty());
    }
    Some(length)
}

/// UTF-16 code units of the byte input, written in order into a buffer of
/// exactly `unit_count` slots.  The scan mirrors the one in
/// [`wide_len_bytes`] step for step, so the count computed there is exactly
/// the number of units written here.
pub fn encode(bytes: &[u8], unit_count: usize) -> (r: Vec<u16>)
    requires
        scan::decodes(bytes@),
        unit_count == wide::wide_units(bytes@).len(),
    ensures
        r@ == wide::wide_units(bytes@),
        r@.len() == unit_count,
{
    let n = bytes.len();
    let mut data: Vec<u16> = Vec::with_capacity(unit_count);
    let mut index: usize = 0;
    proof {
        assert(bytes@.skip(0) =~= bytes@);
    }
    while index < n
        invariant
            n == bytes@.len(),
            index <= n,
            scan::decodes(bytes@.skip(index as int)),
            wide::wide_units(bytes@) == data@ + wide::units_of_scalars(
                scan::scalars(bytes@.skip(index as int)),
            ),
        decreases n - index,
    {
        let ghost suffix = bytes@.skip(index as int);
        let b0 = bytes[index];
        proof {
            scan::lemma_mask_patterns(b0);
            assert(suffix[0] == b0);
            assert(suffix.len() == n - index);
            assert(scan::head_ok(suffix));
        }
        let chr: u32;
        let width: usize;
        if b0 & 0x80 == 0x00 {
            chr = b0 as u32;
            width = 1;
            proof {
                assert(b0 & 0x7f == b0) by (bit_vector)
                    requires
                        b0 & 0x80 == 0x00,
                ;
            }
        } else if b0 & 0xe0 == 0xc0 {
            let b1 = bytes[index + 1];
            chr = (((b0 & 0x1f) as u32) << 6) | ((b1 & 0x3f) as u32);
            width = 2;
            proof {
                assert(suffix[1] == b1);
            }
        } else if b0 & 0xf0 == 0xe0 {
            let b1 = bytes[index + 1];
            let b2 = bytes[index + 2];
            chr = (((b0 & 0x0f) as u32) << 12) | (((b1 & 0x3f) as u32) << 6) | ((b2
                & 0x3f) as u32);
            width = 3;
            proof {
                assert(suffix[1] == b1 && suffix[2] == b2);
            }
        } else {
            let b1 = bytes[index + 1];
            let b2 = bytes[index + 2];
            let b3 = bytes[index + 3];
            chr = (((b0 & 0x07) as u32) << 18) | (((b1 & 0x3f) as u32) << 12) | (((b2
                & 0x3f) as u32) << 6) | ((b3 & 0x3f) as u32);
            width = 4;
            proof {
                assert(suffix[1] == b1 && suffix[2] == b2 && suffix[3] == b3);
            }
        }
        proof {
            assert(scan::lead_width(b0) == width);
            assert(chr == scan::head_scalar(suffix));
            scan::lemma_head_scalar_bound(suffix);
            scan::lemma_scalars_step(suffix);
            wide::lemma_units_cons(chr, scan::scalars(suffix.skip(width as int)));
            assert(suffix.skip(width as int) =~= bytes@.skip(index as int + width as int));
        }
        if chr >= 0x10000 {
            data.push((0xD800 + (chr - 0x10000) / 0x400) as u16);
            data.push((0xDC00 + (chr - 0x10000) % 0x400) as u16);
        } else {
            data.push(chr as u16);
        }
        index += width;
    }
    proof {
        assert(bytes@.skip(n as int) =~= Seq::<u8>::empty());
        assert(scan::scalars(bytes@.skip(n as int)) =~= Seq::<u32>::empty());
        assert(data@ =~= wide::wide_units(bytes@));
    }
    data
}

/// Copies the given code units into a fresh buffer one slot longer and sets
/// the final slot to zero.  The source is not changed; its units come first
/// and in order, and the last unit of the result is the terminator.
pub fn append_null(units: &[u16]) -> (r: Vec<u16>)
    ensures
        r@ == units@.push(0u16),
        r@.len() == units@.len() + 1,
        forall|i: int| 0 <= i < units@.len() ==> r@[i] == units@[i],
        r@[units@.len() as int] == 0u16,
{
    let n = units.len();
    let mut data: Vec<u16> = Vec::with_capacity(n);
    let mut i: usize = 0;
    while i < n
        invariant
            n == units@.len(),
            i <= n,
            data@ == units@.subrange(0, i as int),
        decreases n - i,
    {
        data.push(units[i]);
        proof {
            assert(data@ =~= units@.subrange(0, i as int + 1));
        }
        i += 1;
    }
    data.push(0u16);
    proof {
        assert(data@ =~= units@.push(0u16));
    }
    data
}

/// Number of UTF-16 code units that the string will occupy.  A `&str` is
/// always well-formed UTF-8, so the scan cannot fail here.
pub fn wide_len(s: &str) -> (n: usize)
    ensures
        n == wide::wide_units_of_chars(s@).len(),
{
    let bytes = s.as_bytes();
    proof {
        wide::lemma_wide_units_of_encoded_chars(s@);
    }
    wide_len_bytes(bytes).unwrap()
}

/// The UTF-16 encoding of the string: first the counting pass fixes the
/// buffer size, then the encoding pass fills it.
pub fn utf16_units(s: &str) -> (r: Vec<u16>)
    ensures
        r@ == wide::wide_units_of_chars(s@),
{
    let bytes = s.as_bytes();
    proof {
        wide::lemma_wide_units_of_encoded_chars(s@);
    }
    let count = wide_len(s);
    encode(bytes, count)
}

/// The UTF-16 encoding of the string with exactly one trailing zero unit
/// appended.
pub fn utf16_units_null_terminated(s: &str) -> (r: Vec<u16>)
    ensures
        r@ == wide::wide_units_of_chars(s@).push(0u16),
{
    let units = utf16_units(s);
    append_null(units.as_slice())
}

/// The UTF-16 encoding of a raw byte input, or `None` when the bytes are
/// not well-formed under the scan's rules: a leading byte that matches no
/// recognized pattern, or a truncated multi-byte sequence.
pub fn try_utf16_units(bytes: &[u8]) -> (r: Option<Vec<u16>>)
    ensures
        r is Some <==> scan::decodes(bytes@),
        r matches Some(v) ==> v@ == wide::wide_units(bytes@),
{
    match wide_len_bytes(bytes) {
        Some(count) => Some(encode(bytes, count)),
        None => None,
    }
}

/// Length consistency: for one and the same input, the unit count that the
/// counting pass reports equals the number of units the encoding pass
/// writes — it never under- or over-counts.  The hypotheses are exactly what
/// [`wide_len_bytes`] and [`encode`] ensure about their results.
pub proof fn lemma_wide_len_matches_encode(bytes: Seq<u8>, n: usize, units: Seq<u16>)
    requires
        n == wide::wide_units(bytes).len(),
        units == wide::wide_units(bytes),
    ensures
        n == units.len(),
{
}

/// Idempotent purity of the plain transformation: its result is a function
/// of the input characters alone, so two results for one input are
/// identical.  The hypotheses are exactly what [`utf16_units`] ensures about
/// each of the two results.
pub proof fn lemma_utf16_units_deterministic(cs: Seq<char>, r1: Seq<u16>, r2: Seq<u16>)
    requires
        r1 == wide::wide_units_of_chars(cs),
        r2 == wide::wide_units_of_chars(cs),
    ensures
        r1 == r2,
{
}

/// Idempotent purity of the null-terminated transformation, in the same
/// way: the hypotheses are what [`utf16_units_null_terminated`] ensures
/// about each of the two results.
pub proof fn lemma_utf16_units_null_terminated_deterministic(
    cs: Seq<char>,
    r1: Seq<u16>,
    r2: Seq<u16>,
)
    requires
        r1 == wide::wide_units_of_chars(cs).push(0u16),
        r2 == wide::wide_units_of_chars(cs).push(0u16),
    ensures
        r1 == r2,
{
}

} // verus!
