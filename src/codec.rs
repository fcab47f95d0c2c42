//! The wire codec: little-endian integers, booleans, length-prefixed strings
//! and counted arrays of 32-bit integers.
use vstd::prelude::*;
use vstd::utf8::{decode_utf8, encode_utf8, valid_utf8};
use vstd::string::StringSliceAdditionalSpecFns;

verus! {

/// Why a value could not be read from the input.
#[derive(Debug, Clone, Copy, PartialEq, Eq, Structural)]
pub enum DecodeError {
    /// Fewer bytes remain than the value needs.
    Truncated,
    /// A string starts with a byte other than `0x00` or `0x0b`.
    UnknownStringPrefix,
    /// A LEB128 length is longer than five bytes or does not fit in 32 bits.
    BadLength,
    /// A byte does not name any value of the expected enumeration.
    BadValue,
}

// ---------------------------------------------------------------------------
// Little-endian integers
// ---------------------------------------------------------------------------

pub open spec fn pow256(w: nat) -> nat
    decreases w,
{
    if w == 0 {
        1
    } else {
        256 * pow256((w - 1) as nat)
    }
}

/// The `w` low bytes of `v`, least significant first.
pub open spec fn le_bytes(v: nat, w: nat) -> Seq<u8>
    decreases w,
{
    if w == 0 {
        Seq::empty()
    } else {
        seq![(v % 256) as u8] + le_bytes(v / 256, (w - 1) as nat)
    }
}

/// The number whose little-endian bytes are `b`.
pub open spec fn le_value(b: Seq<u8>) -> nat
    decreases b.len(),
{
    if b.len() == 0 {
        0
    } else {
        b[0] as nat + 256 * le_value(b.drop_first())
    }
}

pub open spec fn wire_u8(v: u8) -> Seq<u8> {
    seq![v]
}

pub open spec fn wire_u16(v: u16) -> Seq<u8> {
    le_bytes(v as nat, 2)
}

pub open spec fn wire_i16(v: i16) -> Seq<u8> {
    le_bytes((#[verifier::truncate] (v as u16)) as nat, 2)
}

pub open spec fn wire_u32(v: u32) -> Seq<u8> {
    le_bytes(v as nat, 4)
}

pub open spec fn wire_i32(v: i32) -> Seq<u8> {
    le_bytes((#[verifier::truncate] (v as u32)) as nat, 4)
}

pub open spec fn wire_u64(v: u64) -> Seq<u8> {
    le_bytes(v as nat, 8)
}

pub open spec fn wire_bool(v: bool) -> Seq<u8> {
    seq![if v { 1u8 } else { 0u8 }]
}

/// The `w`-byte little-endian number at the front of `b`, if `b` is long enough.
pub open spec fn spec_uint(b: Seq<u8>, w: nat) -> Option<nat> {
    if b.len() >= w {
        Some(le_value(b.take(w as int)))
    } else {
        None
    }
}

pub open spec fn spec_u8(b: Seq<u8>) -> Option<u8> {
    if b.len() >= 1 {
        Some(b[0])
    } else {
        None
    }
}

pub open spec fn spec_u16(b: Seq<u8>) -> Option<u16> {
    match spec_uint(b, 2) {
        Some(n) => Some(n as u16),
        None => None,
    }
}

pub open spec fn spec_i16(b: Seq<u8>) -> Option<i16> {
    match spec_uint(b, 2) {
        Some(n) => Some(#[verifier::truncate] ((n as u16) as i16)),
        None => None,
    }
}

pub open spec fn spec_u32(b: Seq<u8>) -> Option<u32> {
    match spec_uint(b, 4) {
        Some(n) => Some(n as u32),
        None => None,
    }
}

pub open spec fn spec_i32(b: Seq<u8>) -> Option<i32> {
    match spec_uint(b, 4) {
        Some(n) => Some(#[verifier::truncate] ((n as u32) as i32)),
        None => None,
    }
}

pub open spec fn spec_u64(b: Seq<u8>) -> Option<u64> {
    match spec_uint(b, 8) {
        Some(n) => Some(n as u64),
        None => None,
    }
}

pub open spec fn spec_bool(b: Seq<u8>) -> Option<bool> {
    if b.len() >= 1 {
        Some(b[0] != 0)
    } else {
        None
    }
}

pub proof fn lemma_le_bytes_len(v: nat, w: nat)
    ensures
        le_bytes(v, w).len() == w,
    decreases w,
{
    if w > 0 {
        lemma_le_bytes_len(v / 256, (w - 1) as nat);
    }
}

pub proof fn lemma_le_value_bound(b: Seq<u8>)
    ensures
        le_value(b) < pow256(b.len()),
    decreases b.len(),
{
    if b.len() > 0 {
        lemma_le_value_bound(b.drop_first());
        let r = le_value(b.drop_first());
        let p = pow256((b.len() - 1) as nat);
        assert(r + 1 <= p);
        assert(256 * (r + 1) <= 256 * p) by (nonlinear_arith)
            requires
                r + 1 <= p,
        ;
    }
}

/// Reading back `w` little-endian bytes of `v` gives `v`, whatever follows them.
pub proof fn lemma_le_round_trip(v: nat, w: nat, rest: Seq<u8>)
    requires
        v < pow256(w),
    ensures
        (le_bytes(v, w) + rest).take(w as int) == le_bytes(v, w),
        le_value(le_bytes(v, w)) == v,
        le_bytes(v, w).len() == w,
    decreases w,
{
    lemma_le_bytes_len(v, w);
    assert((le_bytes(v, w) + rest).take(w as int) =~= le_bytes(v, w));
    if w > 0 {
        let p = pow256((w - 1) as nat);
        assert(v / 256 < p) by (nonlinear_arith)
            requires
                v < 256 * p,
        ;
        lemma_le_round_trip(v / 256, (w - 1) as nat, rest);
        assert(le_bytes(v, w).drop_first() =~= le_bytes(v / 256, (w - 1) as nat));
    }
}

pub proof fn lemma_pow256_values()
    ensures
        pow256(1) == 0x100,
        pow256(2) == 0x1_0000,
        pow256(4) == 0x1_0000_0000,
        pow256(8) == 0x1_0000_0000_0000_0000,
{
    reveal_with_fuel(pow256, 9);
}

/// Appends the `w` low bytes of `v`, least significant first.
pub(crate) fn push_le(buf: &mut Vec<u8>, v: u64, w: usize)
    ensures
        final(buf)@ == old(buf)@ + le_bytes(v as nat, w as nat),
    decreases w,
{
    if w == 0 {
        assert(old(buf)@ + le_bytes(v as nat, 0) =~= old(buf)@);
    } else {
        buf.push((v % 256) as u8);
        push_le(buf, v / 256, w - 1);
        assert(old(buf)@ + le_bytes(v as nat, w as nat) =~= old(buf)@ + seq![(v % 256) as u8]
            + le_bytes((v / 256) as nat, (w - 1) as nat));
    }
}

/// The `w`-byte little-endian number at `b[start..start + w]`.
pub(crate) fn read_le(b: &[u8], start: usize, w: usize) -> (r: u64)
    requires
        start + w <= b@.len(),
        w <= 8,
    ensures
        r as nat == le_value(b@.subrange(start as int, start + w)),
    decreases w,
{
    proof {
        lemma_le_value_bound(b@.subrange(start as int, start + w));
        lemma_pow256_values();
        reveal_with_fuel(pow256, 9);
    }
    if w == 0 {
        0
    } else {
        let n = b.len();
        assert(start < n);
        let rest = read_le(b, start + 1, w - 1);
        proof {
            assert(b@.subrange(start as int, start + w).drop_first() =~= b@.subrange(
                start + 1,
                start + w,
            ));
            lemma_le_value_bound(b@.subrange(start + 1, start + w));
            assert(pow256((w - 1) as nat) <= pow256(7)) by {
                lemma_pow256_mono((w - 1) as nat, 7);
            }
        }
        b[start] as u64 + 256 * rest
    }
}

proof fn lemma_pow256_mono(a: nat, b: nat)
    requires
        a <= b,
    ensures
        pow256(a) <= pow256(b),
    decreases b,
{
    if a < b {
        lemma_pow256_mono(a, (b - 1) as nat);
    }
}


// ---------------------------------------------------------------------------
// LEB128 lengths
// ---------------------------------------------------------------------------

/// Unsigned LEB128: seven bits per byte, low group first, high bit set on
/// every byte but the last.
pub open spec fn leb(n: nat) -> Seq<u8>
    decreases n,
{
    if n < 128 {
        seq![n as u8]
    } else {
        seq![(n % 128 + 128) as u8] + leb(n / 128)
    }
}

/// The number of bytes up to and including the first one below `0x80`.
pub open spec fn leb_end(b: Seq<u8>) -> Option<nat>
    decreases b.len(),
{
    if b.len() == 0 {
        None
    } else if b[0] < 128 {
        Some(1)
    } else {
        match leb_end(b.drop_first()) {
            Some(k) => Some(k + 1),
            None => None,
        }
    }
}

/// The number that the seven-bit groups of `b` spell, low group first.
pub open spec fn leb_value(b: Seq<u8>) -> nat
    decreases b.len(),
{
    if b.len() == 0 {
        0
    } else {
        (b[0] % 128) as nat + 128 * leb_value(b.drop_first())
    }
}

/// A LEB128 number at the front of `b` and its length in bytes: at most five
/// bytes, and a value that fits in 32 bits.
pub open spec fn spec_leb(b: Seq<u8>) -> Option<(u32, nat)> {
    match leb_end(b) {
        Some(k) => if k <= 5 && leb_value(b.take(k as int)) <= u32::MAX {
            Some((leb_value(b.take(k as int)) as u32, k))
        } else {
            None
        },
        None => None,
    }
}

pub proof fn lemma_leb_round_trip(n: nat, rest: Seq<u8>)
    ensures
        leb_end(leb(n) + rest) == Some(leb(n).len()),
        leb_value(leb(n)) == n,
        (leb(n) + rest).take(leb(n).len() as int) == leb(n),
        leb(n).len() >= 1,
    decreases n,
{
    assert((leb(n) + rest).take(leb(n).len() as int) =~= leb(n));
    if n >= 128 {
        lemma_leb_round_trip(n / 128, rest);
        assert((leb(n) + rest).drop_first() =~= leb(n / 128) + rest);
        assert(leb(n).drop_first() =~= leb(n / 128));
        let x = (n % 128 + 128) as u8;
        assert(leb(n)[0] == x);
        assert(x % 128 == n % 128);
        assert(n == n % 128 + 128 * (n / 128));
        assert(leb_value(leb(n)) == (x % 128) as nat + 128 * leb_value(leb(n / 128)));
    } else {
        assert(leb(n).drop_first() =~= Seq::<u8>::empty());
        assert(leb_value(leb(n).drop_first()) == 0);
        assert(leb_value(leb(n)) == (leb(n)[0] % 128) as nat + 128 * leb_value(leb(n).drop_first()));
    }
}

pub open spec fn pow128(k: nat) -> nat
    decreases k,
{
    if k == 0 {
        1
    } else {
        128 * pow128((k - 1) as nat)
    }
}

pub proof fn lemma_leb_len(n: nat, k: nat)
    requires
        k >= 1,
        n < pow128(k),
    ensures
        leb(n).len() <= k,
    decreases k,
{
    if n >= 128 {
        assert(k >= 2) by {
            if k == 1 {
                reveal_with_fuel(pow128, 2);
            }
        }
        let p = pow128((k - 1) as nat);
        assert(n / 128 < p) by (nonlinear_arith)
            requires
                n < 128 * p,
        ;
        lemma_leb_len(n / 128, (k - 1) as nat);
    }
}

/// A 32-bit number is read back from its LEB128 bytes, whatever follows them.
pub proof fn lemma_leb_u32_round_trip(n: u32, rest: Seq<u8>)
    ensures
        spec_leb(leb(n as nat) + rest) == Some((n, leb(n as nat).len())),
{
    lemma_leb_round_trip(n as nat, rest);
    reveal_with_fuel(pow128, 6);
    lemma_leb_len(n as nat, 5);
}

// ---------------------------------------------------------------------------
// Strings
// ---------------------------------------------------------------------------

/// The wire form of a string given by its UTF-8 bytes: `0x00` when empty,
/// else `0x0b`, the LEB128 byte length, and the bytes.
pub open spec fn wire_str_bytes(b: Seq<u8>) -> Seq<u8> {
    if b.len() == 0 {
        seq![0u8]
    } else {
        seq![0x0bu8] + leb((#[verifier::truncate] (b.len() as u32)) as nat) + b
    }
}

pub open spec fn wire_str(s: Seq<char>) -> Seq<u8> {
    wire_str_bytes(encode_utf8(s))
}

/// The raw bytes of a string at the front of `b`, and how many bytes it takes.
pub open spec fn spec_str(b: Seq<u8>) -> Option<(Seq<u8>, nat)> {
    if b.len() == 0 {
        None
    } else if b[0] == 0 {
        Some((Seq::empty(), 1))
    } else if b[0] == 0x0b {
        match spec_leb(b.drop_first()) {
            Some((len, k)) => if 1 + k + len <= b.len() {
                Some((b.subrange(1 + k as int, 1 + k + len), (1 + k + len) as nat))
            } else {
                None
            },
            None => None,
        }
    } else {
        None
    }
}

/// What a failed string read reports.
pub open spec fn str_error(b: Seq<u8>) -> DecodeError {
    if b.len() == 0 {
        DecodeError::Truncated
    } else if b[0] != 0 && b[0] != 0x0b {
        DecodeError::UnknownStringPrefix
    } else if spec_leb(b.drop_first()) is None {
        DecodeError::BadLength
    } else {
        DecodeError::Truncated
    }
}

/// A string's wire form reads back as its own UTF-8 bytes, which decode to it.
pub proof fn lemma_str_round_trip(s: Seq<char>, rest: Seq<u8>)
    requires
        encode_utf8(s).len() <= u32::MAX,
    ensures
        spec_str(wire_str(s) + rest) == Some((encode_utf8(s), wire_str(s).len())),
        valid_utf8(encode_utf8(s)),
        decode_utf8(encode_utf8(s)) == s,
{
    let b = encode_utf8(s);
    vstd::utf8::encode_utf8_valid_utf8(s);
    vstd::utf8::encode_utf8_decode_utf8(s);
    let w = wire_str(s) + rest;
    if b.len() > 0 {
        let l = leb(b.len());
        lemma_leb_u32_round_trip(b.len() as u32, b + rest);
        assert(w.drop_first() =~= l + (b + rest));
        assert(w.subrange(1 + l.len() as int, 1 + l.len() + b.len() as int) =~= b);
    }
}

// ---------------------------------------------------------------------------
// Counted arrays of 32-bit integers
// ---------------------------------------------------------------------------

/// The elements' bytes, one after another.
pub open spec fn i32s_body(v: Seq<i32>) -> Seq<u8>
    decreases v.len(),
{
    if v.len() == 0 {
        Seq::empty()
    } else {
        i32s_body(v.drop_last()) + wire_i32(v.last())
    }
}

/// A two-byte element count followed by the elements.
pub open spec fn wire_i32s(v: Seq<i32>) -> Seq<u8> {
    le_bytes(v.len(), 2) + i32s_body(v)
}

/// The `j`-th four-byte element after a two-byte count.
pub open spec fn i32_at(b: Seq<u8>, j: int) -> i32 {
    #[verifier::truncate] ((le_value(b.subrange(2 + 4 * j, 6 + 4 * j)) as u32) as i32)
}

/// A counted array at the front of `b` and how many bytes it takes.
pub open spec fn spec_i32s(b: Seq<u8>) -> Option<(Seq<i32>, nat)> {
    match spec_uint(b, 2) {
        Some(n) => if 2 + 4 * n <= b.len() {
            Some((Seq::new(n, |j: int| i32_at(b, j)), 2 + 4 * n))
        } else {
            None
        },
        None => None,
    }
}

pub proof fn lemma_i32s_body(v: Seq<i32>)
    ensures
        i32s_body(v).len() == 4 * v.len(),
        forall|j: int|
            0 <= j < v.len() ==> #[trigger] i32s_body(v).subrange(4 * j, 4 * j + 4) == wire_i32(
                v[j],
            ),
    decreases v.len(),
{
    if v.len() > 0 {
        let p = v.drop_last();
        lemma_i32s_body(p);
        lemma_le_bytes_len((#[verifier::truncate] (v.last() as u32)) as nat, 4);
        assert forall|j: int| 0 <= j < v.len() implies #[trigger] i32s_body(v).subrange(
            4 * j,
            4 * j + 4,
        ) == wire_i32(v[j]) by {
            if j < p.len() {
                assert(i32s_body(v).subrange(4 * j, 4 * j + 4) =~= i32s_body(p).subrange(
                    4 * j,
                    4 * j + 4,
                ));
            } else {
                assert(i32s_body(v).subrange(4 * j, 4 * j + 4) =~= wire_i32(v.last()));
            }
        }
    }
}

pub proof fn lemma_i32_round_trip_value(x: i32)
    ensures
        #[verifier::truncate] ((le_value(wire_i32(x)) as u32) as i32) == x,
        wire_i32(x).len() == 4,
{
    lemma_pow256_values();
    let u = #[verifier::truncate] (x as u32);
    lemma_le_round_trip(u as nat, 4, Seq::empty());
    assert(#[verifier::truncate] ((u as u32) as i32) == x) by (bit_vector)
        requires
            u == #[verifier::truncate] (x as u32),
    ;
}

/// A counted array's wire form reads back as the same elements.
pub proof fn lemma_i32s_round_trip(v: Seq<i32>, rest: Seq<u8>)
    requires
        v.len() <= u16::MAX,
    ensures
        spec_i32s(wire_i32s(v) + rest) == Some((v, wire_i32s(v).len())),
        wire_i32s(v).len() == 2 + 4 * v.len(),
{
    let b = wire_i32s(v) + rest;
    lemma_pow256_values();
    lemma_le_round_trip(v.len(), 2, i32s_body(v) + rest);
    lemma_i32s_body(v);
    assert(b.take(2) =~= le_bytes(v.len(), 2));
    let d = Seq::new(v.len(), |j: int| i32_at(b, j));
    assert forall|j: int| 0 <= j < v.len() implies d[j] == v[j] by {
        assert(b.subrange(2 + 4 * j, 6 + 4 * j) =~= i32s_body(v).subrange(4 * j, 4 * j + 4));
        lemma_i32_round_trip_value(v[j]);
    }
    assert(d =~= v);
}

// ---------------------------------------------------------------------------
// Round trips of the fixed-width types
// ---------------------------------------------------------------------------

/// Every fixed-width value reads back from its wire form, whatever follows,
/// taking exactly as many bytes as its width.
pub proof fn lemma_fixed_round_trip(
    a: u8,
    b: u16,
    c: i16,
    d: u32,
    e: i32,
    f: u64,
    g: bool,
    rest: Seq<u8>,
)
    ensures
        spec_u8(wire_u8(a) + rest) == Some(a) && wire_u8(a).len() == 1,
        spec_u16(wire_u16(b) + rest) == Some(b) && wire_u16(b).len() == 2,
        spec_i16(wire_i16(c) + rest) == Some(c) && wire_i16(c).len() == 2,
        spec_u32(wire_u32(d) + rest) == Some(d) && wire_u32(d).len() == 4,
        spec_i32(wire_i32(e) + rest) == Some(e) && wire_i32(e).len() == 4,
        spec_u64(wire_u64(f) + rest) == Some(f) && wire_u64(f).len() == 8,
        spec_bool(wire_bool(g) + rest) == Some(g) && wire_bool(g).len() == 1,
{
    lemma_pow256_values();
    lemma_le_round_trip(b as nat, 2, rest);
    let cu = #[verifier::truncate] (c as u16);
    let eu = #[verifier::truncate] (e as u32);
    lemma_le_round_trip(cu as nat, 2, rest);
    lemma_le_round_trip(d as nat, 4, rest);
    lemma_le_round_trip(eu as nat, 4, rest);
    assert(#[verifier::truncate] ((cu as u16) as i16) == c) by (bit_vector)
        requires
            cu == #[verifier::truncate] (c as u16),
    ;
    assert(#[verifier::truncate] ((eu as u32) as i32) == e) by (bit_vector)
        requires
            eu == #[verifier::truncate] (e as u32),
    ;
    lemma_le_round_trip(f as nat, 8, rest);
}

// ---------------------------------------------------------------------------
// Encoding
// ---------------------------------------------------------------------------

pub fn encode_u8(v: u8, buf: &mut Vec<u8>)
    ensures
        final(buf)@ == old(buf)@ + wire_u8(v),
{
    buf.push(v);
    assert(old(buf)@.push(v) =~= old(buf)@ + wire_u8(v));
}

pub fn encode_u16(v: u16, buf: &mut Vec<u8>)
    ensures
        final(buf)@ == old(buf)@ + wire_u16(v),
{
    push_le(buf, v as u64, 2);
}

pub fn encode_i16(v: i16, buf: &mut Vec<u8>)
    ensures
        final(buf)@ == old(buf)@ + wire_i16(v),
{
    push_le(buf, (v as u16) as u64, 2);
}

pub fn encode_u32(v: u32, buf: &mut Vec<u8>)
    ensures
        final(buf)@ == old(buf)@ + wire_u32(v),
{
    push_le(buf, v as u64, 4);
}

pub fn encode_i32(v: i32, buf: &mut Vec<u8>)
    ensures
        final(buf)@ == old(buf)@ + wire_i32(v),
{
    push_le(buf, (v as u32) as u64, 4);
}

pub fn encode_u64(v: u64, buf: &mut Vec<u8>)
    ensures
        final(buf)@ == old(buf)@ + wire_u64(v),
{
    push_le(buf, v, 8);
}

/// One byte: `1` for true, `0` for false.
pub fn encode_bool(v: bool, buf: &mut Vec<u8>)
    ensures
        final(buf)@ == old(buf)@ + wire_bool(v),
{
    encode_u8(if v { 1 } else { 0 }, buf);
}

/// Appends `src` byte by byte.
pub fn push_bytes(buf: &mut Vec<u8>, src: &[u8])
    ensures
        final(buf)@ == old(buf)@ + src@,
{
    let mut i: usize = 0;
    while i < src.len()
        invariant
            i <= src@.len(),
            buf@ == old(buf)@ + src@.take(i as int),
        decreases src@.len() - i,
    {
        buf.push(src[i]);
        i += 1;
        assert(buf@ =~= old(buf)@ + src@.take(i as int));
    }
    assert(src@.take(i as int) =~= src@);
}

/// The string's wire form: `0x00` when empty, else `0x0b`, its LEB128 byte
/// length, and its UTF-8 bytes.
/// A byte length above `u32::MAX` is written modulo 2^32.
pub fn encode_str(s: &str, buf: &mut Vec<u8>)
    ensures
        final(buf)@ == old(buf)@ + wire_str(s@),
{
    let bytes = s.as_bytes();
    if bytes.len() == 0 {
        buf.push(0);
        assert(old(buf)@.push(0) =~= old(buf)@ + wire_str(s@));
    } else {
        buf.push(0x0b);
        crate::leb::encode(buf, bytes.len() as u32);
        push_bytes(buf, bytes);
        assert(buf@ =~= old(buf)@ + wire_str(s@));
    }
}

/// The length of the string's wire form.
pub fn encoded_size_str(s: &str) -> (r: usize)
    requires
        s.spec_bytes().len() + 6 <= usize::MAX,
    ensures
        r == wire_str(s@).len(),
{
    let len = s.as_bytes().len();
    if len == 0 {
        return 1;
    }
    let n = len as u32;
    proof {
        lemma_leb_len_bound(n as nat);
    }
    1 + leb_len(n) + len
}

proof fn lemma_leb_len_bound(n: nat)
    requires
        n <= u32::MAX,
    ensures
        leb(n).len() <= 5,
{
    reveal_with_fuel(pow128, 6);
    lemma_leb_len(n, 5);
}

/// The number of LEB128 bytes of `n`.
fn leb_len(n: u32) -> (r: usize)
    ensures
        r == leb(n as nat).len(),
    decreases n,
{
    proof {
        lemma_leb_len_bound(n as nat);
    }
    if n < 128 {
        1
    } else {
        1 + leb_len(n / 128)
    }
}

/// A two-byte element count followed by each element's four bytes.
/// A count above `u16::MAX` is written modulo 2^16.
pub fn encode_i32s(v: &[i32], buf: &mut Vec<u8>)
    ensures
        final(buf)@ == old(buf)@ + wire_i32s(v@),
{
    push_le(buf, v.len() as u64, 2);
    let ghost start = buf@;
    let mut i: usize = 0;
    while i < v.len()
        invariant
            i <= v@.len(),
            start == old(buf)@ + le_bytes(v@.len(), 2),
            buf@ == start + i32s_body(v@.take(i as int)),
        decreases v@.len() - i,
    {
        encode_i32(v[i], buf);
        proof {
            assert(v@.take(i + 1).drop_last() =~= v@.take(i as int));
        }
        i += 1;
        assert(buf@ =~= start + i32s_body(v@.take(i as int)));
    }
    assert(v@.take(i as int) =~= v@);
    assert(buf@ =~= old(buf)@ + wire_i32s(v@));
}

/// The length of a counted array's wire form.
pub fn encoded_size_i32s(v: &[i32]) -> (r: usize)
    requires
        2 + 4 * v@.len() <= usize::MAX,
    ensures
        r == wire_i32s(v@).len(),
{
    proof {
        lemma_i32s_body(v@);
        lemma_le_bytes_len(v@.len(), 2);
    }
    2 + 4 * v.len()
}

} // verus!
