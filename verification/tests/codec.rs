use utf16_lit::{
    always_true, append_null, encode, try_utf16_units, utf16_units, utf16_units_null_terminated,
    wide_len, wide_len_bytes,
};

#[test]
fn always_true_holds() {
    assert!(always_true());
}

#[test]
fn example_units() {
    let r = utf16_units("example");
    assert_eq!(r, vec![101u16, 120, 97, 109, 112, 108, 101]);
    assert_eq!(wide_len("example"), 7);
}

#[test]
fn example_null_units() {
    let r = utf16_units_null_terminated("example");
    assert_eq!(r, vec![101u16, 120, 97, 109, 112, 108, 101, 0]);
    assert_eq!(r.len(), 8);
}

#[test]
fn empty_units() {
    assert_eq!(utf16_units(""), Vec::<u16>::new());
    assert_eq!(wide_len(""), 0);
    assert_eq!(utf16_units_null_terminated(""), vec![0u16]);
}

#[test]
fn two_byte_sequence() {
    assert_eq!(utf16_units("é"), vec![0x00E9u16]);
    let r = try_utf16_units(&[0xC3, 0xA9]).unwrap();
    assert_eq!(r, vec![0x00E9u16]);
}

#[test]
fn three_byte_sequence() {
    // U+20AC, the euro sign, encodes as 0xE2 0x82 0xAC.
    assert_eq!(utf16_units("€"), vec![0x20ACu16]);
    let r = try_utf16_units(&[0xE2, 0x82, 0xAC]).unwrap();
    assert_eq!(r, vec![0x20ACu16]);
}

#[test]
fn surrogate_pair() {
    // U+1F600 encodes as 0xF0 0x9F 0x98 0x80 and needs a surrogate pair.
    let r = try_utf16_units(&[0xF0, 0x9F, 0x98, 0x80]).unwrap();
    assert_eq!(r, vec![0xD83Du16, 0xDE00]);
    assert_eq!(utf16_units("😀"), vec![0xD83Du16, 0xDE00]);
    assert_eq!(wide_len("😀"), 2);
}

#[test]
fn invalid_leading_byte() {
    assert_eq!(try_utf16_units(&[0xFF]), None);
    assert_eq!(wide_len_bytes(&[0xFF]), None);
    assert_eq!(wide_len_bytes(&[b'a', 0xFF, b'b']), None);
}

#[test]
fn continuation_as_leading_byte() {
    assert_eq!(try_utf16_units(&[0x80]), None);
    assert_eq!(wide_len_bytes(&[0xBF, 0x40]), None);
}

#[test]
fn truncated_sequence() {
    assert_eq!(wide_len_bytes(&[0xC3]), None);
    assert_eq!(try_utf16_units(&[0xE2, 0x82]), None);
    assert_eq!(try_utf16_units(&[0xF0, 0x9F, 0x98]), None);
}

#[test]
fn first_unit_of_this_works() {
    let r = utf16_units("This works");
    assert_eq!(r[0], 'T' as u8 as u16);
    assert_eq!(r[0], 0x54);
}

#[test]
fn matches_std_encode_utf16() {
    let s = "aé€😀 mixed";
    let expect: Vec<u16> = s.encode_utf16().collect();
    assert_eq!(utf16_units(s), expect);
    assert_eq!(wide_len(s), expect.len());
    let mut with_null = expect.clone();
    with_null.push(0);
    assert_eq!(utf16_units_null_terminated(s), with_null);
}

#[test]
fn round_trip_to_scalars() {
    let s = "aé€😀";
    let units = utf16_units(s);
    let back: String = char::decode_utf16(units.iter().copied())
        .map(|r| r.unwrap())
        .collect();
    assert_eq!(back, s);
}

#[test]
fn wide_len_matches_encode_len() {
    for s in ["", "a", "é", "€", "😀", "This works", "mix é€😀 end"] {
        assert_eq!(wide_len(s), utf16_units(s).len());
    }
}

#[test]
fn append_null_shape() {
    let u = vec![5u16, 0xD83D, 0, 42];
    let r = append_null(&u);
    assert_eq!(r.len(), u.len() + 1);
    assert_eq!(&r[..u.len()], &u[..]);
    assert_eq!(r[u.len()], 0);
    assert_eq!(u, vec![5u16, 0xD83D, 0, 42]);
}

#[test]
fn append_null_empty() {
    let r = append_null(&[]);
    assert_eq!(r, vec![0u16]);
}

#[test]
fn transformations_pure() {
    let s = "pure é😀";
    assert_eq!(utf16_units(s), utf16_units(s));
    assert_eq!(
        utf16_units_null_terminated(s),
        utf16_units_null_terminated(s)
    );
    let b = [0xC3u8, 0xA9];
    assert_eq!(try_utf16_units(&b), try_utf16_units(&b));
}

#[test]
fn encode_with_counted_size() {
    let bytes = "wide €".as_bytes();
    let count = wide_len_bytes(bytes).unwrap();
    let units = encode(bytes, count);
    assert_eq!(units.len(), count);
    let expect: Vec<u16> = "wide €".encode_utf16().collect();
    assert_eq!(units, expect);
}
