//! Byte-level layout of the values that travel between host and client.
//!
//! Every integer is little-endian and of fixed width; a length is a `u64`;
//! a string is its UTF-8 byte length followed by those bytes; an optional
//! value is a tag byte (`0` absent, `1` present) followed by the value.
//! The primitive values are written and read by `bincode`, whose default
//! configuration produces exactly this layout.
use vstd::prelude::*;
use vstd::utf8::*;
use vstd::string::StringSliceAdditionalSpecFns;

verus! {

/// Two little-endian bytes of `v`.
pub open spec fn le16(v: u16) -> Seq<u8> {
    seq![(v & 0xff) as u8, ((v >> 8u16) & 0xff) as u8]
}

/// Four little-endian bytes of `v`.
pub open spec fn le32(v: u32) -> Seq<u8> {
    seq![
        (v & 0xff) as u8,
        ((v >> 8u32) & 0xff) as u8,
        ((v >> 16u32) & 0xff) as u8,
        ((v >> 24u32) & 0xff) as u8,
    ]
}

/// Eight little-endian bytes of `v`.
pub open spec fn le64(v: u64) -> Seq<u8> {
    seq![
        (v & 0xff) as u8,
        ((v >> 8u64) & 0xff) as u8,
        ((v >> 16u64) & 0xff) as u8,
        ((v >> 24u64) & 0xff) as u8,
        ((v >> 32u64) & 0xff) as u8,
        ((v >> 40u64) & 0xff) as u8,
        ((v >> 48u64) & 0xff) as u8,
        ((v >> 56u64) & 0xff) as u8,
    ]
}

/// The `u16` whose little-endian bytes start `b`.
#[verifier::opaque]
pub open spec fn u16_at(b: Seq<u8>) -> u16 {
    (b[0] as u16) | ((b[1] as u16) << 8u16)
}

/// The `u32` whose little-endian bytes start `b`.
#[verifier::opaque]
pub open spec fn u32_at(b: Seq<u8>) -> u32 {
    (b[0] as u32) | ((b[1] as u32) << 8u32) | ((b[2] as u32) << 16u32) | ((b[3] as u32) << 24u32)
}

/// The `u64` whose little-endian bytes start `b`.
#[verifier::opaque]
pub open spec fn u64_at(b: Seq<u8>) -> u64 {
    (b[0] as u64) | ((b[1] as u64) << 8u64) | ((b[2] as u64) << 16u64) | ((b[3] as u64) << 24u64)
        | ((b[4] as u64) << 32u64) | ((b[5] as u64) << 40u64) | ((b[6] as u64) << 48u64) | ((
    b[7] as u64) << 56u64)
}

pub proof fn lemma_le16_roundtrip(v: u16, rest: Seq<u8>)
    ensures
        u16_at(le16(v) + rest) == v,
{
    reveal(u16_at);
    let b = le16(v) + rest;
    assert(b[0] == le16(v)[0] && b[1] == le16(v)[1]);
    let b0 = (v & 0xff) as u8;
    let b1 = ((v >> 8u16) & 0xff) as u8;
    assert(b0 == (v & 0xff) as u8 && b1 == ((v >> 8u16) & 0xff) as u8 ==> ((b0 as u16) | ((
    b1 as u16) << 8u16)) == v) by (bit_vector);
}

pub proof fn lemma_le32_roundtrip(v: u32, rest: Seq<u8>)
    ensures
        u32_at(le32(v) + rest) == v,
{
    reveal(u32_at);
    let b = le32(v) + rest;
    assert(b[0] == le32(v)[0] && b[1] == le32(v)[1] && b[2] == le32(v)[2] && b[3] == le32(v)[3]);
    let b0 = (v & 0xff) as u8;
    let b1 = ((v >> 8u32) & 0xff) as u8;
    let b2 = ((v >> 16u32) & 0xff) as u8;
    let b3 = ((v >> 24u32) & 0xff) as u8;
    assert(b0 == (v & 0xff) as u8 && b1 == ((v >> 8u32) & 0xff) as u8 && b2 == ((v >> 16u32)
        & 0xff) as u8 && b3 == ((v >> 24u32) & 0xff) as u8 ==> ((b0 as u32) | ((b1 as u32)
        << 8u32) | ((b2 as u32) << 16u32) | ((b3 as u32) << 24u32)) == v) by (bit_vector);
}

pub proof fn lemma_le64_roundtrip(v: u64, rest: Seq<u8>)
    ensures
        u64_at(le64(v) + rest) == v,
{
    reveal(u64_at);
    let b = le64(v) + rest;
    assert(b[0] == le64(v)[0] && b[1] == le64(v)[1] && b[2] == le64(v)[2] && b[3] == le64(v)[3]
        && b[4] == le64(v)[4] && b[5] == le64(v)[5] && b[6] == le64(v)[6] && b[7] == le64(v)[7]);
    let b0 = (v & 0xff) as u8;
    let b1 = ((v >> 8u64) & 0xff) as u8;
    let b2 = ((v >> 16u64) & 0xff) as u8;
    let b3 = ((v >> 24u64) & 0xff) as u8;
    let b4 = ((v >> 32u64) & 0xff) as u8;
    let b5 = ((v >> 40u64) & 0xff) as u8;
    let b6 = ((v >> 48u64) & 0xff) as u8;
    let b7 = ((v >> 56u64) & 0xff) as u8;
    assert(b0 == (v & 0xff) as u8 && b1 == ((v >> 8u64) & 0xff) as u8 && b2 == ((v >> 16u64)
        & 0xff) as u8 && b3 == ((v >> 24u64) & 0xff) as u8 && b4 == ((v >> 32u64) & 0xff) as u8
        && b5 == ((v >> 40u64) & 0xff) as u8 && b6 == ((v >> 48u64) & 0xff) as u8 && b7 == ((v
        >> 56u64) & 0xff) as u8 ==> ((b0 as u64) | ((b1 as u64) << 8u64) | ((b2 as u64) << 16u64)
        | ((b3 as u64) << 24u64) | ((b4 as u64) << 32u64) | ((b5 as u64) << 40u64) | ((b6 as u64)
        << 48u64) | ((b7 as u64) << 56u64)) == v) by (bit_vector);
}

pub proof fn lemma_u16_at_canonical(b: Seq<u8>)
    requires
        b.len() >= 2,
    ensures
        le16(u16_at(b)) == b.take(2),
{
    reveal(u16_at);
    let b0 = b[0];
    let b1 = b[1];
    let x = u16_at(b);
    assert(x == (b0 as u16) | ((b1 as u16) << 8u16) ==> (x & 0xff) as u8 == b0 && ((x >> 8u16)
        & 0xff) as u8 == b1) by (bit_vector);
    assert(le16(x) =~= b.take(2));
}

pub proof fn lemma_u32_at_canonical(b: Seq<u8>)
    requires
        b.len() >= 4,
    ensures
        le32(u32_at(b)) == b.take(4),
{
    reveal(u32_at);
    let b0 = b[0];
    let b1 = b[1];
    let b2 = b[2];
    let b3 = b[3];
    let x = u32_at(b);
    assert(x == (b0 as u32) | ((b1 as u32) << 8u32) | ((b2 as u32) << 16u32) | ((b3 as u32)
        << 24u32) ==> (x & 0xff) as u8 == b0 && ((x >> 8u32) & 0xff) as u8 == b1 && ((x
        >> 16u32) & 0xff) as u8 == b2 && ((x >> 24u32) & 0xff) as u8 == b3) by (bit_vector);
    assert(le32(x) =~= b.take(4));
}

pub proof fn lemma_u64_at_canonical(b: Seq<u8>)
    requires
        b.len() >= 8,
    ensures
        le64(u64_at(b)) == b.take(8),
{
    reveal(u64_at);
    let b0 = b[0];
    let b1 = b[1];
    let b2 = b[2];
    let b3 = b[3];
    let b4 = b[4];
    let b5 = b[5];
    let b6 = b[6];
    let b7 = b[7];
    let x = u64_at(b);
    assert(x == (b0 as u64) | ((b1 as u64) << 8u64) | ((b2 as u64) << 16u64) | ((b3 as u64)
        << 24u64) | ((b4 as u64) << 32u64) | ((b5 as u64) << 40u64) | ((b6 as u64) << 48u64) | ((
    b7 as u64) << 56u64) ==> (x & 0xff) as u8 == b0 && ((x >> 8u64) & 0xff) as u8 == b1 && ((x
        >> 16u64) & 0xff) as u8 == b2 && ((x >> 24u64) & 0xff) as u8 == b3 && ((x >> 32u64)
        & 0xff) as u8 == b4 && ((x >> 40u64) & 0xff) as u8 == b5 && ((x >> 48u64) & 0xff) as u8
        == b6 && ((x >> 56u64) & 0xff) as u8 == b7) by (bit_vector);
    assert(le64(x) =~= b.take(8));
}


/// One byte for `b`: `1` for true, `0` for false.
pub open spec fn wire_bool(b: bool) -> Seq<u8> {
    seq![if b { 1u8 } else { 0u8 }]
}

/// A string: its UTF-8 byte length as eight little-endian bytes, then the bytes.
pub open spec fn wire_str(s: Seq<char>) -> Seq<u8> {
    le64(encode_utf8(s).len() as u64) + encode_utf8(s)
}

/// An optional string: tag byte `0`, or tag byte `1` and the string.
pub open spec fn wire_opt_str(o: Option<Seq<char>>) -> Seq<u8> {
    match o {
        None => seq![0u8],
        Some(s) => seq![1u8] + wire_str(s),
    }
}

/// An optional `u32`: tag byte `0`, or tag byte `1` and the four bytes.
pub open spec fn wire_opt_u32(o: Option<u32>) -> Seq<u8> {
    match o {
        None => seq![0u8],
        Some(v) => seq![1u8] + le32(v),
    }
}

/// The byte length that `wire_str` gives a string of these characters.
pub open spec fn str_wire_len(s: Seq<char>) -> int {
    8 + encode_utf8(s).len() as int
}

/// Whether the byte length of the string fits in the eight-byte length prefix.
pub open spec fn str_fits(s: Seq<char>) -> bool {
    encode_utf8(s).len() <= u64::MAX
}

/// Whether every string in an optional string fits in its length prefix.
pub open spec fn opt_str_fits(o: Option<Seq<char>>) -> bool {
    match o {
        None => true,
        Some(s) => str_fits(s),
    }
}

/// Reading a value at the front of `b`: the number of bytes it takes and the
/// value, or `None` where the bytes hold no such value.
pub open spec fn parse_u8(b: Seq<u8>) -> Option<(int, u8)> {
    if b.len() >= 1 {
        Some((1, b[0]))
    } else {
        None
    }
}

pub open spec fn parse_u16(b: Seq<u8>) -> Option<(int, u16)> {
    if b.len() >= 2 {
        Some((2, u16_at(b)))
    } else {
        None
    }
}

pub open spec fn parse_u32(b: Seq<u8>) -> Option<(int, u32)> {
    if b.len() >= 4 {
        Some((4, u32_at(b)))
    } else {
        None
    }
}

pub open spec fn parse_u64(b: Seq<u8>) -> Option<(int, u64)> {
    if b.len() >= 8 {
        Some((8, u64_at(b)))
    } else {
        None
    }
}

/// A boolean is one byte that must be `0` or `1`.
pub open spec fn parse_bool(b: Seq<u8>) -> Option<(int, bool)> {
    if b.len() >= 1 && b[0] <= 1 {
        Some((1, b[0] == 1))
    } else {
        None
    }
}

/// A string: the length prefix, then that many bytes, which must be valid UTF-8.
pub open spec fn parse_str(b: Seq<u8>) -> Option<(int, Seq<char>)> {
    if b.len() >= 8 && u64_at(b) <= b.len() - 8 && valid_utf8(
        b.subrange(8, 8 + u64_at(b) as int),
    ) {
        Some((8 + u64_at(b) as int, decode_utf8(b.subrange(8, 8 + u64_at(b) as int))))
    } else {
        None
    }
}

/// An optional string: tag `0` alone, or tag `1` and a string; any other tag fails.
pub open spec fn parse_opt_str(b: Seq<u8>) -> Option<(int, Option<Seq<char>>)> {
    if b.len() >= 1 && b[0] == 0 {
        Some((1, None))
    } else if b.len() >= 1 && b[0] == 1 {
        match parse_str(b.skip(1)) {
            Some((n, s)) => Some((1 + n, Some(s))),
            None => None,
        }
    } else {
        None
    }
}

/// An optional `u32`: tag `0` alone, or tag `1` and four bytes; any other tag fails.
pub open spec fn parse_opt_u32(b: Seq<u8>) -> Option<(int, Option<u32>)> {
    if b.len() >= 1 && b[0] == 0 {
        Some((1, None))
    } else if b.len() >= 5 && b[0] == 1 {
        Some((5, Some(u32_at(b.skip(1)))))
    } else {
        None
    }
}

/// A `u16` field at offset `off` reads back as the value whose bytes stand there.
pub proof fn lemma_u16_field(b: Seq<u8>, off: int, v: u16)
    requires
        0 <= off,
        off + 2 <= b.len(),
        b.subrange(off, off + 2) == le16(v),
    ensures
        u16_at(b.skip(off)) == v,
        off == 0 ==> u16_at(b) == v,
{
    assert(b.skip(0) =~= b);
    assert(b.skip(off) =~= le16(v) + b.skip(off + 2));
    lemma_le16_roundtrip(v, b.skip(off + 2));
}

/// A `u32` field at offset `off` reads back as the value whose bytes stand there.
pub proof fn lemma_u32_field(b: Seq<u8>, off: int, v: u32)
    requires
        0 <= off,
        off + 4 <= b.len(),
        b.subrange(off, off + 4) == le32(v),
    ensures
        u32_at(b.skip(off)) == v,
        off == 0 ==> u32_at(b) == v,
{
    assert(b.skip(0) =~= b);
    assert(b.skip(off) =~= le32(v) + b.skip(off + 4));
    lemma_le32_roundtrip(v, b.skip(off + 4));
}

/// A `u64` field at offset `off` reads back as the value whose bytes stand there.
pub proof fn lemma_u64_field(b: Seq<u8>, off: int, v: u64)
    requires
        0 <= off,
        off + 8 <= b.len(),
        b.subrange(off, off + 8) == le64(v),
    ensures
        u64_at(b.skip(off)) == v,
        off == 0 ==> u64_at(b) == v,
{
    assert(b.skip(0) =~= b);
    assert(b.skip(off) =~= le64(v) + b.skip(off + 8));
    lemma_le64_roundtrip(v, b.skip(off + 8));
}

/// The bytes at offset `off` are those of the `u16` read there.
pub proof fn lemma_u16_field_canonical(b: Seq<u8>, off: int)
    requires
        0 <= off,
        off + 2 <= b.len(),
    ensures
        b.subrange(off, off + 2) == le16(u16_at(b.skip(off))),
        off == 0 ==> b.subrange(0, 2) == le16(u16_at(b)),
{
    assert(b.skip(0) =~= b);
    lemma_u16_at_canonical(b.skip(off));
    assert(b.skip(off).take(2) =~= b.subrange(off, off + 2));
}

/// The bytes at offset `off` are those of the `u32` read there.
pub proof fn lemma_u32_field_canonical(b: Seq<u8>, off: int)
    requires
        0 <= off,
        off + 4 <= b.len(),
    ensures
        b.subrange(off, off + 4) == le32(u32_at(b.skip(off))),
        off == 0 ==> b.subrange(0, 4) == le32(u32_at(b)),
{
    assert(b.skip(0) =~= b);
    lemma_u32_at_canonical(b.skip(off));
    assert(b.skip(off).take(4) =~= b.subrange(off, off + 4));
}

/// The bytes at offset `off` are those of the `u64` read there.
pub proof fn lemma_u64_field_canonical(b: Seq<u8>, off: int)
    requires
        0 <= off,
        off + 8 <= b.len(),
    ensures
        b.subrange(off, off + 8) == le64(u64_at(b.skip(off))),
        off == 0 ==> b.subrange(0, 8) == le64(u64_at(b)),
{
    assert(b.skip(0) =~= b);
    lemma_u64_at_canonical(b.skip(off));
    assert(b.skip(off).take(8) =~= b.subrange(off, off + 8));
}

/// The first `j` bytes are the first `i` bytes followed by the bytes from `i` to `j`.
pub proof fn lemma_take_extend(b: Seq<u8>, i: int, j: int, x: Seq<u8>, y: Seq<u8>)
    requires
        0 <= i <= j <= b.len(),
        b.take(i) == x,
        b.subrange(i, j) == y,
    ensures
        b.take(j) == x + y,
{
    assert(b.take(j) =~= b.take(i) + b.subrange(i, j));
}

/// The first `n` bytes from `i` on are the bytes from `i` to `i + n`.
pub proof fn lemma_skip_take(b: Seq<u8>, i: int, n: int)
    requires
        0 <= i,
        0 <= n,
        i + n <= b.len(),
    ensures
        b.skip(i).take(n) == b.subrange(i, i + n),
{
    assert(b.skip(i).take(n) =~= b.subrange(i, i + n));
}

pub proof fn lemma_assoc(a: Seq<u8>, b: Seq<u8>, c: Seq<u8>)
    ensures
        (a + b) + c == a + (b + c),
{
    assert((a + b) + c =~= a + (b + c));
}

/// Stepping over the front part `a` of what starts at `i` lands on the rest `c`.
pub proof fn lemma_step(b: Seq<u8>, i: int, a: Seq<u8>, c: Seq<u8>)
    requires
        0 <= i <= b.len(),
        b.skip(i) == a + c,
    ensures
        b.skip(i + a.len()) == c,
{
    let s = b.skip(i);
    assert(s.len() == b.len() - i);
    assert((a + c).len() == a.len() + c.len());
    assert(s.len() == a.len() + c.len());
    assert forall|k: int| 0 <= k < c.len() implies #[trigger] b.skip(i + a.len())[k] == c[k] by {
        assert(s[a.len() + k] == (a + c)[a.len() + k]);
        assert((a + c)[a.len() + k] == c[k]);
        assert(s[a.len() + k] == b[i + a.len() + k]);
        assert(b.skip(i + a.len())[k] == b[i + a.len() + k]);
    }
    assert(b.skip(i + a.len()) =~= c);
}

pub broadcast proof fn lemma_skip_skip(b: Seq<u8>, i: int, j: int)
    requires
        0 <= i <= b.len(),
        0 <= j <= b.len() - i,
    ensures
        #[trigger] b.skip(i).skip(j) == b.skip(i + j),
{
    assert(b.skip(i).skip(j) =~= b.skip(i + j));
}

pub broadcast proof fn lemma_skip_front(a: Seq<u8>, c: Seq<u8>)
    ensures
        #[trigger] (a + c).skip(a.len() as int) == c,
{
    assert((a + c).skip(a.len() as int) =~= c);
}

pub proof fn lemma_str_roundtrip(s: Seq<char>, rest: Seq<u8>)
    requires
        str_fits(s),
    ensures
        parse_str(wire_str(s) + rest) == Some((str_wire_len(s), s)),
        wire_str(s).len() == str_wire_len(s),
{
    let e = encode_utf8(s);
    let b = wire_str(s) + rest;
    assert(b =~= le64(e.len() as u64) + (e + rest));
    lemma_le64_roundtrip(e.len() as u64, e + rest);
    assert(b.subrange(8, 8 + e.len() as int) =~= e);
    encode_utf8_valid_utf8(s);
    encode_utf8_decode_utf8(s);
}

pub proof fn lemma_str_canonical(b: Seq<u8>)
    requires
        parse_str(b) is Some,
    ensures
        parse_str(b) matches Some((n, s)) && 0 <= n <= b.len() && str_fits(s) && n == str_wire_len(s)
            && b.take(n) == wire_str(s),
{
    let len = u64_at(b);
    let body = b.subrange(8, 8 + len as int);
    decode_utf8_encode_utf8(body);
    lemma_u64_at_canonical(b);
    let s = decode_utf8(body);
    assert(encode_utf8(s) == body);
    assert(b.take(8 + len as int) =~= b.take(8) + body);
}

pub proof fn lemma_opt_str_roundtrip(o: Option<Seq<char>>, rest: Seq<u8>)
    requires
        opt_str_fits(o),
    ensures
        parse_opt_str(wire_opt_str(o) + rest) == Some((wire_opt_str(o).len() as int, o)),
{
    match o {
        None => {},
        Some(s) => {
            let b = wire_opt_str(o) + rest;
            assert(b.skip(1) =~= wire_str(s) + rest);
            lemma_str_roundtrip(s, rest);
        },
    }
}

pub proof fn lemma_opt_str_canonical(b: Seq<u8>)
    requires
        parse_opt_str(b) is Some,
    ensures
        parse_opt_str(b) matches Some((n, o)) && 0 <= n <= b.len() && opt_str_fits(o) && b.take(n)
            == wire_opt_str(o),
{
    if b[0] == 0 {
        assert(b.take(1) =~= seq![0u8]);
    } else {
        lemma_str_canonical(b.skip(1));
        let (n, s) = parse_str(b.skip(1)).unwrap();
        assert(b.take(1 + n) =~= seq![1u8] + b.skip(1).take(n));
    }
}

pub proof fn lemma_opt_u32_roundtrip(o: Option<u32>, rest: Seq<u8>)
    ensures
        parse_opt_u32(wire_opt_u32(o) + rest) == Some((wire_opt_u32(o).len() as int, o)),
{
    match o {
        None => {},
        Some(v) => {
            let b = wire_opt_u32(o) + rest;
            assert(b.skip(1) =~= le32(v) + rest);
            lemma_le32_roundtrip(v, rest);
        },
    }
}

pub proof fn lemma_opt_u32_canonical(b: Seq<u8>)
    requires
        parse_opt_u32(b) is Some,
    ensures
        parse_opt_u32(b) matches Some((n, o)) && 0 <= n <= b.len() && b.take(n) == wire_opt_u32(o),
{
    if b[0] == 0 {
        assert(b.take(1) =~= seq![0u8]);
    } else {
        lemma_u32_at_canonical(b.skip(1));
        assert(b.take(5) =~= seq![1u8] + b.skip(1).take(4));
    }
}

pub proof fn lemma_bool_roundtrip(v: bool, rest: Seq<u8>)
    ensures
        parse_bool(wire_bool(v) + rest) == Some((1int, v)),
{
    assert((wire_bool(v) + rest)[0] == wire_bool(v)[0]);
}

pub proof fn lemma_bool_canonical(b: Seq<u8>)
    requires
        parse_bool(b) is Some,
    ensures
        parse_bool(b) matches Some((n, v)) && 0 <= n <= b.len() && b.take(n) == wire_bool(v),
{
    assert(b.take(1) =~= wire_bool(b[0] == 1));
}


// ---------------------------------------------------------------------------
// Writing primitive values: each appends what `bincode::serialize_into` writes
// for the value in bincode's default (fixed-width, little-endian) layout.
// Writing into a `Vec<u8>` cannot fail, so the result is discarded.
// ---------------------------------------------------------------------------
/// `bincode::serialize_into` on a `u8`: appends the byte.
#[verifier::external_body]
pub(crate) fn append_u8(buf: &mut Vec<u8>, v: u8)
    ensures
        final(buf)@ == old(buf)@ + seq![v],
{
    let _ = bincode::serialize_into(&mut *buf, &v);
}

/// `bincode::serialize_into` on a `u16`: appends its two little-endian bytes.
#[verifier::external_body]
pub(crate) fn append_u16(buf: &mut Vec<u8>, v: u16)
    ensures
        final(buf)@ == old(buf)@ + le16(v),
{
    let _ = bincode::serialize_into(&mut *buf, &v);
}

/// `bincode::serialize_into` on a `u32`: appends its four little-endian bytes.
#[verifier::external_body]
pub(crate) fn append_u32(buf: &mut Vec<u8>, v: u32)
    ensures
        final(buf)@ == old(buf)@ + le32(v),
{
    let _ = bincode::serialize_into(&mut *buf, &v);
}

/// `bincode::serialize_into` on a `u64`: appends its eight little-endian bytes.
#[verifier::external_body]
pub(crate) fn append_u64(buf: &mut Vec<u8>, v: u64)
    ensures
        final(buf)@ == old(buf)@ + le64(v),
{
    let _ = bincode::serialize_into(&mut *buf, &v);
}

/// `bincode::serialize_into` on a `bool`: appends `1` or `0`.
#[verifier::external_body]
pub(crate) fn append_bool(buf: &mut Vec<u8>, v: bool)
    ensures
        final(buf)@ == old(buf)@ + wire_bool(v),
{
    let _ = bincode::serialize_into(&mut *buf, &v);
}

/// `bincode::serialize_into` on a `str`: appends the UTF-8 byte length as a
/// `u64`, then the UTF-8 bytes.
#[verifier::external_body]
pub(crate) fn append_str(buf: &mut Vec<u8>, v: &str)
    ensures
        final(buf)@ == old(buf)@ + wire_str(v@),
{
    let _ = bincode::serialize_into(&mut *buf, v);
}

/// `bincode::serialize_into` on an `Option<String>`: appends the tag byte and,
/// when present, the string.
#[verifier::external_body]
pub(crate) fn append_opt_string(buf: &mut Vec<u8>, v: &Option<String>)
    ensures
        final(buf)@ == old(buf)@ + wire_opt_str(
            match v {
                Some(s) => Some(s@),
                None => None,
            },
        ),
{
    let _ = bincode::serialize_into(&mut *buf, v);
}

/// `bincode::serialize_into` on an `Option<u32>`: appends the tag byte and,
/// when present, the four bytes.
#[verifier::external_body]
pub(crate) fn append_opt_u32(buf: &mut Vec<u8>, v: Option<u32>)
    ensures
        final(buf)@ == old(buf)@ + wire_opt_u32(v),
{
    let _ = bincode::serialize_into(&mut *buf, &v);
}

// ---------------------------------------------------------------------------
// Reading primitive values: `bincode::deserialize` on the bytes from `pos` on.
// Trailing bytes are allowed; an error (too few bytes, a bad tag, invalid
// UTF-8) comes back as `None`.
// ---------------------------------------------------------------------------
/// `bincode::deserialize::<u8>`: the byte at `pos`.
#[verifier::external_body]
pub(crate) fn decode_u8(bytes: &[u8], pos: usize) -> (r: Option<u8>)
    requires
        pos <= bytes@.len(),
    ensures
        r == (match parse_u8(bytes@.skip(pos as int)) {
            Some((_, v)) => Some(v),
            None => None,
        }),
{
    bincode::deserialize::<u8>(&bytes[pos..]).ok()
}

/// `bincode::deserialize::<u16>`: two little-endian bytes at `pos`.
#[verifier::external_body]
pub(crate) fn decode_u16(bytes: &[u8], pos: usize) -> (r: Option<u16>)
    requires
        pos <= bytes@.len(),
    ensures
        r == (match parse_u16(bytes@.skip(pos as int)) {
            Some((_, v)) => Some(v),
            None => None,
        }),
{
    bincode::deserialize::<u16>(&bytes[pos..]).ok()
}

/// `bincode::deserialize::<u32>`: four little-endian bytes at `pos`.
#[verifier::external_body]
pub(crate) fn decode_u32(bytes: &[u8], pos: usize) -> (r: Option<u32>)
    requires
        pos <= bytes@.len(),
    ensures
        r == (match parse_u32(bytes@.skip(pos as int)) {
            Some((_, v)) => Some(v),
            None => None,
        }),
{
    bincode::deserialize::<u32>(&bytes[pos..]).ok()
}

/// `bincode::deserialize::<u64>`: eight little-endian bytes at `pos`.
#[verifier::external_body]
pub(crate) fn decode_u64(bytes: &[u8], pos: usize) -> (r: Option<u64>)
    requires
        pos <= bytes@.len(),
    ensures
        r == (match parse_u64(bytes@.skip(pos as int)) {
            Some((_, v)) => Some(v),
            None => None,
        }),
{
    bincode::deserialize::<u64>(&bytes[pos..]).ok()
}

/// `bincode::deserialize::<bool>`: the byte at `pos`, which must be `0` or `1`.
#[verifier::external_body]
pub(crate) fn decode_bool(bytes: &[u8], pos: usize) -> (r: Option<bool>)
    requires
        pos <= bytes@.len(),
    ensures
        r == (match parse_bool(bytes@.skip(pos as int)) {
            Some((_, v)) => Some(v),
            None => None,
        }),
{
    bincode::deserialize::<bool>(&bytes[pos..]).ok()
}

/// `bincode::deserialize::<String>`: a length-prefixed UTF-8 string at `pos`.
#[verifier::external_body]
pub(crate) fn decode_string(bytes: &[u8], pos: usize) -> (r: Option<String>)
    requires
        pos <= bytes@.len(),
    ensures
        match parse_str(bytes@.skip(pos as int)) {
            Some((_, v)) => r matches Some(s) && s@ == v,
            None => r is None,
        },
{
    bincode::deserialize::<String>(&bytes[pos..]).ok()
}

/// `bincode::deserialize::<Option<String>>`: a tag byte at `pos` and, for tag
/// `1`, a string.
#[verifier::external_body]
pub(crate) fn decode_opt_string(bytes: &[u8], pos: usize) -> (r: Option<Option<String>>)
    requires
        pos <= bytes@.len(),
    ensures
        match parse_opt_str(bytes@.skip(pos as int)) {
            Some((_, None)) => r == Some(None::<String>),
            Some((_, Some(v))) => r matches Some(Some(s)) && s@ == v,
            None => r is None,
        },
{
    bincode::deserialize::<Option<String>>(&bytes[pos..]).ok()
}

/// `bincode::deserialize::<Option<u32>>`: a tag byte at `pos` and, for tag `1`,
/// four little-endian bytes.
#[verifier::external_body]
pub(crate) fn decode_opt_u32(bytes: &[u8], pos: usize) -> (r: Option<Option<u32>>)
    requires
        pos <= bytes@.len(),
    ensures
        r == (match parse_opt_u32(bytes@.skip(pos as int)) {
            Some((_, v)) => Some(v),
            None => None,
        }),
{
    bincode::deserialize::<Option<u32>>(&bytes[pos..]).ok()
}

// ---------------------------------------------------------------------------
// Readers that also report how many bytes the value took.
// ---------------------------------------------------------------------------
pub fn read_bool(bytes: &[u8], pos: usize) -> (r: Option<(usize, bool)>)
    requires
        pos <= bytes@.len(),
    ensures
        r == (match parse_bool(bytes@.skip(pos as int)) {
            Some((n, v)) => Some((n as usize, v)),
            None => None,
        }),
{
    match decode_bool(bytes, pos) {
        Some(v) => Some((1, v)),
        None => None,
    }
}

pub fn read_string(bytes: &[u8], pos: usize) -> (r: Option<(usize, String)>)
    requires
        pos <= bytes@.len(),
    ensures
        match parse_str(bytes@.skip(pos as int)) {
            Some((n, v)) => r matches Some((m, s)) && m == n && s@ == v,
            None => r is None,
        },
{
    match decode_string(bytes, pos) {
        Some(s) => {
            let ghost b = bytes@.skip(pos as int);
            let ghost body = b.subrange(8, 8 + u64_at(b) as int);
            proof {
                decode_utf8_encode_utf8(body);
            }
            let avail = bytes.len() - pos;
            let st = s.as_str();
            assert(st.spec_bytes() == body);
            let len = st.len();
            assert(len == body.len() && 8 + len <= avail);
            Some((8 + len, s))
        },
        None => None,
    }
}

pub fn read_opt_string(bytes: &[u8], pos: usize) -> (r: Option<(usize, Option<String>)>)
    requires
        pos <= bytes@.len(),
    ensures
        match parse_opt_str(bytes@.skip(pos as int)) {
            Some((n, None)) => r == Some((n as usize, None::<String>)),
            Some((n, Some(v))) => r matches Some((m, Some(s))) && m == n && s@ == v,
            None => r is None,
        },
{
    match decode_opt_string(bytes, pos) {
        Some(None) => Some((1, None)),
        Some(Some(s)) => {
            let ghost b = bytes@.skip(pos as int).skip(1);
            let ghost body = b.subrange(8, 8 + u64_at(b) as int);
            proof {
                decode_utf8_encode_utf8(body);
                lemma_skip_skip(bytes@, pos as int, 1);
            }
            let avail = bytes.len() - pos;
            let st = s.as_str();
            assert(st.spec_bytes() == body);
            let len = st.len();
            assert(len == body.len() && 9 + len <= avail);
            Some((9 + len, Some(s)))
        },
        None => None,
    }
}

pub fn read_opt_u32(bytes: &[u8], pos: usize) -> (r: Option<(usize, Option<u32>)>)
    requires
        pos <= bytes@.len(),
    ensures
        r == (match parse_opt_u32(bytes@.skip(pos as int)) {
            Some((n, v)) => Some((n as usize, v)),
            None => None,
        }),
{
    match decode_opt_u32(bytes, pos) {
        Some(None) => Some((1, None)),
        Some(Some(v)) => Some((5, Some(v))),
        None => None,
    }
}

} // verus!
