//! The byte layout of token payloads: little-endian integers, length-prefixed
//! byte strings, optional UTF-8 texts and timestamps, each with a reader that
//! accepts exactly what the matching writer produces.
use vstd::prelude::*;
use vstd::bytes::*;
use vstd::utf8::*;
use crate::crypto::string_from_utf8;

verus! {

broadcast use {encode_utf8_valid_utf8, encode_utf8_decode_utf8};

/// Offset that maps the signed timestamp range onto the unsigned one, keeping order.
pub open spec fn timestamp_offset() -> int {
    0x8000_0000_0000_0000_0000_0000_0000_0000
}

/// The unsigned code under which a timestamp is stored.
pub open spec fn timestamp_code(t: i128) -> u128 {
    (t as int + timestamp_offset()) as u128
}

/// The timestamp stored under an unsigned code.
pub open spec fn timestamp_of_code(c: u128) -> i128 {
    (c as int - timestamp_offset()) as i128
}

/// Eight little-endian bytes giving the length, then the bytes themselves.
pub open spec fn length_prefixed(b: Seq<u8>) -> Seq<u8> {
    spec_u64_to_le_bytes(b.len() as u64) + b
}

/// Whether a byte string is short enough for its length prefix.
pub open spec fn fits_length_prefix(b: Seq<u8>) -> bool {
    b.len() <= u64::MAX
}

/// The sixteen bytes that store a timestamp.
pub open spec fn timestamp_bytes(t: i128) -> Seq<u8> {
    spec_u128_to_le_bytes(timestamp_code(t))
}

/// An absent text is the single byte 0; a present one is the byte 1 and its
/// length-prefixed UTF-8 encoding.
pub open spec fn optional_text_bytes(o: Option<Seq<char>>) -> Seq<u8> {
    match o {
        None => seq![0u8],
        Some(s) => seq![1u8] + length_prefixed(encode_utf8(s)),
    }
}

/// Whether an optional text is short enough to be stored.
pub open spec fn optional_text_fits(o: Option<Seq<char>>) -> bool {
    match o {
        None => true,
        Some(s) => fits_length_prefix(encode_utf8(s)),
    }
}

/// The view of an optional string.
pub open spec fn optional_text_view(o: Option<String>) -> Option<Seq<char>> {
    match o {
        None => None,
        Some(s) => Some(s@),
    }
}

/// A `u64` at the front of `d`, and what follows it.
pub open spec fn split_u64(d: Seq<u8>) -> Option<(u64, Seq<u8>)> {
    if d.len() >= 8 {
        Some((spec_u64_from_le_bytes(d.subrange(0, 8)), d.subrange(8, d.len() as int)))
    } else {
        None
    }
}

/// A `u128` at the front of `d`, and what follows it.
pub open spec fn split_u128(d: Seq<u8>) -> Option<(u128, Seq<u8>)> {
    if d.len() >= 16 {
        Some((spec_u128_from_le_bytes(d.subrange(0, 16)), d.subrange(16, d.len() as int)))
    } else {
        None
    }
}

/// A timestamp at the front of `d`, and what follows it.
pub open spec fn split_timestamp(d: Seq<u8>) -> Option<(i128, Seq<u8>)> {
    match split_u128(d) {
        Some((c, rest)) => Some((timestamp_of_code(c), rest)),
        None => None,
    }
}

/// A length-prefixed byte string at the front of `d`, and what follows it.
pub open spec fn split_length_prefixed(d: Seq<u8>) -> Option<(Seq<u8>, Seq<u8>)> {
    match split_u64(d) {
        Some((n, rest)) => if n <= rest.len() {
            Some((rest.subrange(0, n as int), rest.subrange(n as int, rest.len() as int)))
        } else {
            None
        },
        None => None,
    }
}

/// An optional text at the front of `d`, and what follows it.
pub open spec fn split_optional_text(d: Seq<u8>) -> Option<(Option<Seq<char>>, Seq<u8>)> {
    if d.len() == 0 {
        None
    } else if d[0] == 0 {
        Some((None, d.subrange(1, d.len() as int)))
    } else if d[0] == 1 {
        match split_length_prefixed(d.subrange(1, d.len() as int)) {
            Some((b, rest)) => if valid_utf8(b) {
                Some((Some(decode_utf8(b)), rest))
            } else {
                None
            },
            None => None,
        }
    } else {
        None
    }
}

/// A `u64` is read back from the front of its bytes.
pub proof fn lemma_split_u64(x: u64, rest: Seq<u8>)
    ensures
        split_u64(spec_u64_to_le_bytes(x) + rest) == Some((x, rest)),
{
    lemma_auto_spec_u64_to_from_le_bytes();
    let d = spec_u64_to_le_bytes(x) + rest;
    assert(d.subrange(0, 8) =~= spec_u64_to_le_bytes(x));
    assert(d.subrange(8, d.len() as int) =~= rest);
}

/// Bytes that a `u64` is read from start with that `u64`'s bytes.
pub proof fn lemma_split_u64_canonical(d: Seq<u8>, x: u64, rest: Seq<u8>)
    requires
        split_u64(d) == Some((x, rest)),
    ensures
        d == spec_u64_to_le_bytes(x) + rest,
{
    lemma_auto_spec_u64_to_from_le_bytes();
    assert(d =~= d.subrange(0, 8) + d.subrange(8, d.len() as int));
}

/// A `u128` is read back from the front of its bytes.
pub proof fn lemma_split_u128(x: u128, rest: Seq<u8>)
    ensures
        split_u128(spec_u128_to_le_bytes(x) + rest) == Some((x, rest)),
{
    lemma_auto_spec_u128_to_from_le_bytes();
    let d = spec_u128_to_le_bytes(x) + rest;
    assert(d.subrange(0, 16) =~= spec_u128_to_le_bytes(x));
    assert(d.subrange(16, d.len() as int) =~= rest);
}

/// Bytes that a `u128` is read from start with that `u128`'s bytes.
pub proof fn lemma_split_u128_canonical(d: Seq<u8>, x: u128, rest: Seq<u8>)
    requires
        split_u128(d) == Some((x, rest)),
    ensures
        d == spec_u128_to_le_bytes(x) + rest,
{
    lemma_auto_spec_u128_to_from_le_bytes();
    assert(d =~= d.subrange(0, 16) + d.subrange(16, d.len() as int));
}

/// A timestamp is read back from the front of its bytes.
pub proof fn lemma_split_timestamp(t: i128, rest: Seq<u8>)
    ensures
        split_timestamp(timestamp_bytes(t) + rest) == Some((t, rest)),
{
    lemma_split_u128(timestamp_code(t), rest);
}

/// Bytes that a timestamp is read from start with that timestamp's bytes.
pub proof fn lemma_split_timestamp_canonical(d: Seq<u8>, t: i128, rest: Seq<u8>)
    requires
        split_timestamp(d) == Some((t, rest)),
    ensures
        d == timestamp_bytes(t) + rest,
{
    let (c, r) = split_u128(d).unwrap();
    lemma_split_u128_canonical(d, c, r);
    assert(timestamp_code(timestamp_of_code(c)) == c);
}

/// A length-prefixed byte string is read back from the front of its bytes.
pub proof fn lemma_split_length_prefixed(b: Seq<u8>, rest: Seq<u8>)
    requires
        fits_length_prefix(b),
    ensures
        split_length_prefixed(length_prefixed(b) + rest) == Some((b, rest)),
{
    lemma_split_u64(b.len() as u64, b + rest);
    assert(length_prefixed(b) + rest =~= spec_u64_to_le_bytes(b.len() as u64) + (b + rest));
    assert((b + rest).subrange(0, b.len() as int) =~= b);
    assert((b + rest).subrange(b.len() as int, (b + rest).len() as int) =~= rest);
}

/// Bytes that a length-prefixed byte string is read from start with its
/// bytes.
pub proof fn lemma_split_length_prefixed_canonical(d: Seq<u8>, b: Seq<u8>, rest: Seq<u8>)
    requires
        split_length_prefixed(d) == Some((b, rest)),
    ensures
        fits_length_prefix(b),
        d == length_prefixed(b) + rest,
{
    let (n, r) = split_u64(d).unwrap();
    lemma_split_u64_canonical(d, n, r);
    assert(b.len() as u64 == n);
    assert(r =~= b + rest);
    assert(d =~= length_prefixed(b) + rest);
}

/// An optional text is read back from the front of its bytes.
pub proof fn lemma_split_optional_text(o: Option<Seq<char>>, rest: Seq<u8>)
    requires
        optional_text_fits(o),
    ensures
        split_optional_text(optional_text_bytes(o) + rest) == Some((o, rest)),
{
    let d = optional_text_bytes(o) + rest;
    match o {
        None => {
            assert(d.subrange(1, d.len() as int) =~= rest);
        },
        Some(s) => {
            let b = encode_utf8(s);
            lemma_split_length_prefixed(b, rest);
            assert(d.subrange(1, d.len() as int) =~= length_prefixed(b) + rest);
        },
    }
}

/// Bytes that an optional text is read from start with that text's bytes.
pub proof fn lemma_split_optional_text_canonical(d: Seq<u8>, o: Option<Seq<char>>, rest: Seq<u8>)
    requires
        split_optional_text(d) == Some((o, rest)),
    ensures
        optional_text_fits(o),
        d == optional_text_bytes(o) + rest,
{
    let tail = d.subrange(1, d.len() as int);
    assert(d =~= seq![d[0]] + tail);
    if d[0] == 1 {
        let (b, r) = split_length_prefixed(tail).unwrap();
        lemma_split_length_prefixed_canonical(tail, b, r);
        decode_utf8_encode_utf8(b);
        assert(d =~= seq![1u8] + length_prefixed(b) + rest);
    }
}

/// Appends `b` to `out`.
pub fn write_bytes(out: &mut Vec<u8>, b: &[u8])
    ensures
        final(out)@ == old(out)@ + b@,
{
    let mut i: usize = 0;
    while i < b.len()
        invariant
            i <= b@.len(),
            out@ == old(out)@ + b@.subrange(0, i as int),
        decreases b@.len() - i,
    {
        out.push(b[i]);
        i = i + 1;
        assert(out@ =~= old(out)@ + b@.subrange(0, i as int));
    }
    assert(b@.subrange(0, i as int) =~= b@);
}

/// Appends `b` behind its length.
pub fn write_length_prefixed(out: &mut Vec<u8>, b: &[u8])
    ensures
        final(out)@ == old(out)@ + length_prefixed(b@),
{
    let n = u64_to_le_bytes(b.len() as u64);
    write_bytes(out, n.as_slice());
    write_bytes(out, b);
    assert(out@ =~= old(out)@ + length_prefixed(b@));
}

/// The stored code of a timestamp.
pub fn encode_timestamp_code(t: i128) -> (r: u128)
    ensures
        r == timestamp_code(t),
{
    if t >= 0 {
        (t as u128) + 0x8000_0000_0000_0000_0000_0000_0000_0000u128
    } else {
        ((t + i128::MAX) + 1) as u128
    }
}

/// The timestamp of a stored code.
pub fn decode_timestamp_code(c: u128) -> (r: i128)
    ensures
        r == timestamp_of_code(c),
{
    if c >= 0x8000_0000_0000_0000_0000_0000_0000_0000u128 {
        (c - 0x8000_0000_0000_0000_0000_0000_0000_0000u128) as i128
    } else {
        ((c as i128) - i128::MAX) - 1
    }
}

/// Appends the sixteen bytes of a timestamp.
pub fn write_timestamp(out: &mut Vec<u8>, t: i128)
    ensures
        final(out)@ == old(out)@ + timestamp_bytes(t),
{
    let b = u128_to_le_bytes(encode_timestamp_code(t));
    write_bytes(out, b.as_slice());
}

/// A copy of an optional text.
pub fn copy_optional_text(o: &Option<String>) -> (r: Option<String>)
    ensures
        optional_text_view(r) == optional_text_view(*o),
{
    match o {
        Some(s) => Some(s.clone()),
        None => None,
    }
}

/// Appends an optional text.
pub fn write_optional_text(out: &mut Vec<u8>, o: &Option<String>)
    ensures
        final(out)@ == old(out)@ + optional_text_bytes(optional_text_view(*o)),
{
    match o {
        None => {
            out.push(0u8);
            assert(out@ =~= old(out)@ + optional_text_bytes(optional_text_view(*o)));
        },
        Some(s) => {
            out.push(1u8);
            write_length_prefixed(out, s.as_str().as_bytes());
            assert(out@ =~= old(out)@ + optional_text_bytes(optional_text_view(*o)));
        },
    }
}

/// The bytes of `data` from `from` to its end.
pub open spec fn rest_of(data: Seq<u8>, from: int) -> Seq<u8> {
    data.subrange(from, data.len() as int)
}

/// A copy of `data[from..to]`.
pub fn copy_range(data: &[u8], from: usize, to: usize) -> (r: Vec<u8>)
    requires
        from <= to <= data@.len(),
    ensures
        r@ == data@.subrange(from as int, to as int),
{
    let mut r: Vec<u8> = Vec::new();
    let mut i: usize = from;
    while i < to
        invariant
            from <= i <= to <= data@.len(),
            r@ == data@.subrange(from as int, i as int),
        decreases to - i,
    {
        r.push(data[i]);
        i = i + 1;
        assert(r@ =~= data@.subrange(from as int, i as int));
    }
    r
}

/// Reads a `u64` at `pos`.
pub fn read_u64(data: &[u8], pos: usize) -> (r: Option<(u64, usize)>)
    requires
        pos <= data@.len(),
    ensures
        match r {
            Some((v, p)) => pos <= p <= data@.len() && split_u64(rest_of(data@, pos as int))
                == Some((v, rest_of(data@, p as int))),
            None => split_u64(rest_of(data@, pos as int)) is None,
        },
{
    if data.len() - pos < 8 {
        return None;
    }
    let b = copy_range(data, pos, pos + 8);
    let v = u64_from_le_bytes(b.as_slice());
    let ghost d = rest_of(data@, pos as int);
    assert(d.subrange(0, 8) =~= b@);
    assert(d.subrange(8, d.len() as int) =~= rest_of(data@, pos + 8));
    Some((v, pos + 8))
}

/// Reads a timestamp at `pos`.
pub fn read_timestamp(data: &[u8], pos: usize) -> (r: Option<(i128, usize)>)
    requires
        pos <= data@.len(),
    ensures
        match r {
            Some((v, p)) => pos <= p <= data@.len() && split_timestamp(rest_of(data@, pos as int))
                == Some((v, rest_of(data@, p as int))),
            None => split_timestamp(rest_of(data@, pos as int)) is None,
        },
{
    match read_u128(data, pos) {
        Some((c, p)) => Some((decode_timestamp_code(c), p)),
        None => None,
    }
}

/// Reads a `u128` at `pos`.
pub fn read_u128(data: &[u8], pos: usize) -> (r: Option<(u128, usize)>)
    requires
        pos <= data@.len(),
    ensures
        match r {
            Some((v, p)) => pos <= p <= data@.len() && split_u128(rest_of(data@, pos as int))
                == Some((v, rest_of(data@, p as int))),
            None => split_u128(rest_of(data@, pos as int)) is None,
        },
{
    if data.len() - pos < 16 {
        return None;
    }
    let b = copy_range(data, pos, pos + 16);
    let v = u128_from_le_bytes(b.as_slice());
    let ghost d = rest_of(data@, pos as int);
    assert(d.subrange(0, 16) =~= b@);
    assert(d.subrange(16, d.len() as int) =~= rest_of(data@, pos + 16));
    Some((v, pos + 16))
}

/// Reads a length-prefixed byte string at `pos`.
pub fn read_length_prefixed(data: &[u8], pos: usize) -> (r: Option<(Vec<u8>, usize)>)
    requires
        pos <= data@.len(),
    ensures
        match r {
            Some((v, p)) => pos <= p <= data@.len() && split_length_prefixed(
                rest_of(data@, pos as int),
            ) == Some((v@, rest_of(data@, p as int))),
            None => split_length_prefixed(rest_of(data@, pos as int)) is None,
        },
{
    match read_u64(data, pos) {
        None => None,
        Some((n, p)) => {
            let ghost r = rest_of(data@, p as int);
            if n > (data.len() - p) as u64 {
                return None;
            }
            let end = p + n as usize;
            let v = copy_range(data, p, end);
            assert(r.subrange(0, n as int) =~= v@);
            assert(r.subrange(n as int, r.len() as int) =~= rest_of(data@, end as int));
            Some((v, end))
        },
    }
}

/// Reads an optional text at `pos`.
pub fn read_optional_text(data: &[u8], pos: usize) -> (r: Option<(Option<String>, usize)>)
    requires
        pos <= data@.len(),
    ensures
        match r {
            Some((v, p)) => pos <= p <= data@.len() && split_optional_text(
                rest_of(data@, pos as int),
            ) == Some((optional_text_view(v), rest_of(data@, p as int))),
            None => split_optional_text(rest_of(data@, pos as int)) is None,
        },
{
    let ghost d = rest_of(data@, pos as int);
    if pos >= data.len() {
        return None;
    }
    let tag = data[pos];
    assert(d[0] == tag);
    assert(d.subrange(1, d.len() as int) =~= rest_of(data@, pos + 1));
    if tag == 0 {
        Some((None, pos + 1))
    } else if tag == 1 {
        match read_length_prefixed(data, pos + 1) {
            None => None,
            Some((b, p)) => match string_from_utf8(b) {
                None => None,
                Some(s) => Some((Some(s), p)),
            },
        }
    } else {
        None
    }
}

} // verus!
