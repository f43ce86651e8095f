use token_auth::wire::{
    decode_timestamp_code, encode_timestamp_code, read_length_prefixed, read_optional_text,
    read_timestamp, read_u64, write_length_prefixed, write_optional_text, write_timestamp,
};

#[test]
fn timestamps_keep_their_order_when_coded() {
    assert_eq!(encode_timestamp_code(i128::MIN), 0);
    assert_eq!(encode_timestamp_code(-1), (1u128 << 127) - 1);
    assert_eq!(encode_timestamp_code(0), 1u128 << 127);
    assert_eq!(encode_timestamp_code(i128::MAX), u128::MAX);
    for t in [i128::MIN, -5, 0, 5, i128::MAX] {
        assert_eq!(decode_timestamp_code(encode_timestamp_code(t)), t);
    }
}

#[test]
fn fields_read_back_what_was_written() {
    let mut out = Vec::new();
    write_length_prefixed(&mut out, b"abc");
    write_timestamp(&mut out, -42);
    write_optional_text(&mut out, &Some("ü".to_owned()));
    write_optional_text(&mut out, &None);
    assert_eq!(&out[0..11], &[3, 0, 0, 0, 0, 0, 0, 0, b'a', b'b', b'c']);

    let (b, p) = read_length_prefixed(&out, 0).expect("bytes");
    assert_eq!(b, b"abc".to_vec());
    let (t, p) = read_timestamp(&out, p).expect("timestamp");
    assert_eq!(t, -42);
    let (s, p) = read_optional_text(&out, p).expect("text");
    assert_eq!(s, Some("ü".to_owned()));
    let (s, p) = read_optional_text(&out, p).expect("text");
    assert_eq!(s, None);
    assert_eq!(p, out.len());
}

#[test]
fn short_or_invalid_fields_are_refused() {
    assert_eq!(read_u64(&[1, 2, 3], 0), None);
    assert_eq!(read_length_prefixed(&[5, 0, 0, 0, 0, 0, 0, 0, 1], 0), None);
    assert_eq!(read_optional_text(&[2], 0), None);
    assert_eq!(read_optional_text(&[1, 1, 0, 0, 0, 0, 0, 0, 0, 0xff], 0), None);
}
