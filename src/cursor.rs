//! A read position in a byte slice, and the bounds-checked readers that
//! decode one value at a time from it.
use vstd::prelude::*;
use vstd::utf8::{decode_utf8, valid_utf8};
use crate::codec::{
    i32_at, le_value, lemma_le_value_bound, lemma_pow256_values, read_le, spec_bool, spec_i16,
    spec_i32, spec_i32s, spec_str, spec_u16, spec_u32, spec_u64, spec_u8, spec_uint, str_error,
    DecodeError,
};

verus! {

/// What `String::from_utf8_lossy` makes of the bytes `b`.
pub uninterp spec fn lossy_utf8(b: Seq<u8>) -> Seq<char>;

/// Relies on `String::from_utf8_lossy`: each invalid sequence becomes U+FFFD,
/// and valid UTF-8 is decoded as it stands.
#[verifier::external_body]
fn string_from_bytes(b: &[u8]) -> (r: String)
    ensures
        r@ == lossy_utf8(b@),
        valid_utf8(b@) ==> r@ == decode_utf8(b@),
{
    String::from_utf8_lossy(b).into_owned()
}

/// The unread part of a byte slice.
pub struct Cursor<'a> {
    pos: usize,
    data: &'a [u8],
}

impl<'a> View for Cursor<'a> {
    type V = Seq<u8>;

    /// The bytes not read yet.
    closed spec fn view(&self) -> Seq<u8> {
        self.data@.skip(self.pos as int)
    }
}

impl<'a> Cursor<'a> {
    #[verifier::type_invariant]
    spec fn inv(&self) -> bool {
        self.pos <= self.data@.len()
    }

    pub fn new(data: &'a [u8]) -> (r: Cursor<'a>)
        ensures
            r@ == data@,
    {
        let r = Cursor { pos: 0, data };
        assert(r@ =~= data@);
        r
    }

    /// The bytes not read yet.
    pub fn data(&self) -> (r: &'a [u8])
        ensures
            r@ == self@,
    {
        proof {
            use_type_invariant(self);
        }
        let r = &self.data[self.pos..self.data.len()];
        assert(r@ =~= self@);
        r
    }

    pub fn remaining(&self) -> (r: usize)
        ensures
            r == self@.len(),
    {
        proof {
            use_type_invariant(self);
        }
        self.data.len() - self.pos
    }

    /// Takes the next `len` bytes, or fails without moving when fewer remain.
    pub fn read(&mut self, len: usize) -> (r: Result<&'a [u8], DecodeError>)
        ensures
            len <= old(self)@.len() ==> r is Ok && r->Ok_0@ == old(self)@.take(len as int)
                && final(self)@ == old(self)@.skip(len as int),
            len > old(self)@.len() ==> r == Err::<&'a [u8], DecodeError>(DecodeError::Truncated)
                && final(self)@ == old(self)@,
    {
        proof {
            use_type_invariant(&*self);
        }
        if len > self.data.len() - self.pos {
            return Err(DecodeError::Truncated);
        }
        let r = &self.data[self.pos..self.pos + len];
        self.pos = self.pos + len;
        assert(r@ =~= old(self)@.take(len as int));
        assert(self@ =~= old(self)@.skip(len as int));
        Ok(r)
    }

    /// Skips `len` bytes, or all that remain when fewer do.
    pub fn advance(&mut self, len: usize)
        ensures
            len <= old(self)@.len() ==> final(self)@ == old(self)@.skip(len as int),
            len > old(self)@.len() ==> final(self)@.len() == 0,
    {
        proof {
            use_type_invariant(&*self);
        }
        if len > self.data.len() - self.pos {
            self.pos = self.data.len();
        } else {
            self.pos = self.pos + len;
        }
        assert(len <= old(self)@.len() ==> self@ =~= old(self)@.skip(len as int));
    }

    /// Reads a `w`-byte little-endian number.
    fn read_uint(&mut self, w: usize) -> (r: Result<u64, DecodeError>)
        requires
            w <= 8,
        ensures
            match spec_uint(old(self)@, w as nat) {
                Some(n) => r == Ok::<u64, DecodeError>(n as u64) && final(self)@ == old(self)@.skip(
                    w as int,
                ),
                None => r == Err::<u64, DecodeError>(DecodeError::Truncated) && final(self)@ == old(
                    self,
                )@,
            },
    {
        let s = self.read(w)?;
        let v = read_le(s, 0, w);
        assert(s@.subrange(0, w as int) =~= s@);
        Ok(v)
    }

    pub fn read_u8(&mut self) -> (r: Result<u8, DecodeError>)
        ensures
            match spec_u8(old(self)@) {
                Some(v) => r == Ok::<u8, DecodeError>(v) && final(self)@ == old(self)@.skip(1),
                None => r == Err::<u8, DecodeError>(DecodeError::Truncated) && final(self)@ == old(
                    self,
                )@,
            },
    {
        let s = self.read(1)?;
        Ok(s[0])
    }

    pub fn read_u16(&mut self) -> (r: Result<u16, DecodeError>)
        ensures
            match spec_u16(old(self)@) {
                Some(v) => r == Ok::<u16, DecodeError>(v) && final(self)@ == old(self)@.skip(2),
                None => r == Err::<u16, DecodeError>(DecodeError::Truncated) && final(self)@ == old(
                    self,
                )@,
            },
    {
        let v = self.read_uint(2)?;
        proof {
            lemma_le_value_bound(old(self)@.take(2));
            lemma_pow256_values();
        }
        Ok(v as u16)
    }

    pub fn read_i16(&mut self) -> (r: Result<i16, DecodeError>)
        ensures
            match spec_i16(old(self)@) {
                Some(v) => r == Ok::<i16, DecodeError>(v) && final(self)@ == old(self)@.skip(2),
                None => r == Err::<i16, DecodeError>(DecodeError::Truncated) && final(self)@ == old(
                    self,
                )@,
            },
    {
        let v = self.read_uint(2)?;
        proof {
            lemma_le_value_bound(old(self)@.take(2));
            lemma_pow256_values();
        }
        Ok((v as u16) as i16)
    }

    pub fn read_u32(&mut self) -> (r: Result<u32, DecodeError>)
        ensures
            match spec_u32(old(self)@) {
                Some(v) => r == Ok::<u32, DecodeError>(v) && final(self)@ == old(self)@.skip(4),
                None => r == Err::<u32, DecodeError>(DecodeError::Truncated) && final(self)@ == old(
                    self,
                )@,
            },
    {
        let v = self.read_uint(4)?;
        proof {
            lemma_le_value_bound(old(self)@.take(4));
            lemma_pow256_values();
        }
        Ok(v as u32)
    }

    pub fn read_i32(&mut self) -> (r: Result<i32, DecodeError>)
        ensures
            match spec_i32(old(self)@) {
                Some(v) => r == Ok::<i32, DecodeError>(v) && final(self)@ == old(self)@.skip(4),
                None => r == Err::<i32, DecodeError>(DecodeError::Truncated) && final(self)@ == old(
                    self,
                )@,
            },
    {
        let v = self.read_uint(4)?;
        proof {
            lemma_le_value_bound(old(self)@.take(4));
            lemma_pow256_values();
        }
        Ok((v as u32) as i32)
    }

    pub fn read_u64(&mut self) -> (r: Result<u64, DecodeError>)
        ensures
            match spec_u64(old(self)@) {
                Some(v) => r == Ok::<u64, DecodeError>(v) && final(self)@ == old(self)@.skip(8),
                None => r == Err::<u64, DecodeError>(DecodeError::Truncated) && final(self)@ == old(
                    self,
                )@,
            },
    {
        let v = self.read_uint(8)?;
        proof {
            lemma_le_value_bound(old(self)@.take(8));
            lemma_pow256_values();
        }
        Ok(v)
    }

    pub fn read_bool(&mut self) -> (r: Result<bool, DecodeError>)
        ensures
            match spec_bool(old(self)@) {
                Some(v) => r == Ok::<bool, DecodeError>(v) && final(self)@ == old(self)@.skip(1),
                None => r == Err::<bool, DecodeError>(DecodeError::Truncated) && final(self)@
                    == old(self)@,
            },
    {
        let s = self.read(1)?;
        Ok(s[0] != 0)
    }

    /// Reads a string; bytes that are not valid UTF-8 are replaced, not rejected.
    pub fn read_string(&mut self) -> (r: Result<String, DecodeError>)
        ensures
            match spec_str(old(self)@) {
                Some((b, k)) => r is Ok && r->Ok_0@ == lossy_utf8(b) && (valid_utf8(b) ==> r->Ok_0@
                    == decode_utf8(b)) && final(self)@ == old(self)@.skip(k as int),
                None => r == Err::<String, DecodeError>(str_error(old(self)@)) && final(self)@
                    == old(self)@,
            },
    {
        let rest = self.data();
        if rest.len() == 0 {
            return Err(DecodeError::Truncated);
        }
        let prefix = rest[0];
        if prefix == 0 {
            self.advance(1);
            let e: &[u8] = &rest[0..0];
            assert(e@ =~= Seq::<u8>::empty());
            return Ok(string_from_bytes(e));
        }
        if prefix != 0x0b {
            return Err(DecodeError::UnknownStringPrefix);
        }
        let after = &rest[1..rest.len()];
        assert(after@ =~= old(self)@.drop_first());
        let (len, k) = match crate::leb::decode(after) {
            Ok(p) => p,
            Err(e) => {
                return Err(e);
            },
        };
        if len as usize > rest.len() - 1 - k {
            return Err(DecodeError::Truncated);
        }
        let body = &rest[1 + k..1 + k + len as usize];
        self.advance(1 + k + len as usize);
        assert(body@ =~= old(self)@.subrange(1 + k as int, 1 + k + len as int));
        Ok(string_from_bytes(body))
    }

    /// Reads a two-byte count and that many four-byte integers.
    pub fn read_i32s(&mut self) -> (r: Result<Vec<i32>, DecodeError>)
        ensures
            match spec_i32s(old(self)@) {
                Some((v, k)) => r is Ok && r->Ok_0@ == v && final(self)@ == old(self)@.skip(
                    k as int,
                ),
                None => r == Err::<Vec<i32>, DecodeError>(DecodeError::Truncated) && final(self)@
                    == old(self)@,
            },
    {
        let rest = self.data();
        if rest.len() < 2 {
            return Err(DecodeError::Truncated);
        }
        let n = read_le(rest, 0, 2) as usize;
        proof {
            lemma_le_value_bound(rest@.subrange(0, 2));
            lemma_pow256_values();
            assert(rest@.subrange(0, 2) =~= rest@.take(2));
        }
        if n > (rest.len() - 2) / 4 {
            return Err(DecodeError::Truncated);
        }
        let mut out: Vec<i32> = Vec::new();
        let mut j: usize = 0;
        let rl = rest.len();
        while j < n
            invariant
                rl == rest@.len(),
                j <= n,
                2 + 4 * n <= rest@.len(),
                out@.len() == j,
                forall|t: int| 0 <= t < j ==> out@[t] == i32_at(rest@, t),
            decreases n - j,
        {
            let x = read_le(rest, 2 + 4 * j, 4);
            proof {
                lemma_le_value_bound(rest@.subrange(2 + 4 * j, 6 + 4 * j));
                lemma_pow256_values();
            }
            out.push((x as u32) as i32);
            j += 1;
        }
        self.advance(2 + 4 * n);
        assert(out@ =~= Seq::new(n as nat, |t: int| i32_at(rest@, t)));
        Ok(out)
    }
}

pub fn decode_u8(b: &[u8]) -> (r: Result<(u8, usize), DecodeError>)
    ensures
        match spec_u8(b@) {
            Some(v) => r == Ok::<(u8, usize), DecodeError>((v, 1)),
            None => r == Err::<(u8, usize), DecodeError>(DecodeError::Truncated),
        },
{
    let mut c = Cursor::new(b);
    let v = c.read_u8()?;
    Ok((v, 1))
}

pub fn decode_u16(b: &[u8]) -> (r: Result<(u16, usize), DecodeError>)
    ensures
        match spec_u16(b@) {
            Some(v) => r == Ok::<(u16, usize), DecodeError>((v, 2)),
            None => r == Err::<(u16, usize), DecodeError>(DecodeError::Truncated),
        },
{
    let mut c = Cursor::new(b);
    let v = c.read_u16()?;
    Ok((v, 2))
}

pub fn decode_i16(b: &[u8]) -> (r: Result<(i16, usize), DecodeError>)
    ensures
        match spec_i16(b@) {
            Some(v) => r == Ok::<(i16, usize), DecodeError>((v, 2)),
            None => r == Err::<(i16, usize), DecodeError>(DecodeError::Truncated),
        },
{
    let mut c = Cursor::new(b);
    let v = c.read_i16()?;
    Ok((v, 2))
}

pub fn decode_u32(b: &[u8]) -> (r: Result<(u32, usize), DecodeError>)
    ensures
        match spec_u32(b@) {
            Some(v) => r == Ok::<(u32, usize), DecodeError>((v, 4)),
            None => r == Err::<(u32, usize), DecodeError>(DecodeError::Truncated),
        },
{
    let mut c = Cursor::new(b);
    let v = c.read_u32()?;
    Ok((v, 4))
}

pub fn decode_i32(b: &[u8]) -> (r: Result<(i32, usize), DecodeError>)
    ensures
        match spec_i32(b@) {
            Some(v) => r == Ok::<(i32, usize), DecodeError>((v, 4)),
            None => r == Err::<(i32, usize), DecodeError>(DecodeError::Truncated),
        },
{
    let mut c = Cursor::new(b);
    let v = c.read_i32()?;
    Ok((v, 4))
}

pub fn decode_u64(b: &[u8]) -> (r: Result<(u64, usize), DecodeError>)
    ensures
        match spec_u64(b@) {
            Some(v) => r == Ok::<(u64, usize), DecodeError>((v, 8)),
            None => r == Err::<(u64, usize), DecodeError>(DecodeError::Truncated),
        },
{
    let mut c = Cursor::new(b);
    let v = c.read_u64()?;
    Ok((v, 8))
}

pub fn decode_bool(b: &[u8]) -> (r: Result<(bool, usize), DecodeError>)
    ensures
        match spec_bool(b@) {
            Some(v) => r == Ok::<(bool, usize), DecodeError>((v, 1)),
            None => r == Err::<(bool, usize), DecodeError>(DecodeError::Truncated),
        },
{
    let mut c = Cursor::new(b);
    let v = c.read_bool()?;
    Ok((v, 1))
}

/// Decodes a string and the number of bytes it took.
pub fn decode_str(b: &[u8]) -> (r: Result<(String, usize), DecodeError>)
    ensures
        match spec_str(b@) {
            Some((bytes, k)) => r is Ok && r->Ok_0.0@ == lossy_utf8(bytes) && (valid_utf8(bytes)
                ==> r->Ok_0.0@ == decode_utf8(bytes)) && r->Ok_0.1 == k,
            None => r == Err::<(String, usize), DecodeError>(str_error(b@)),
        },
{
    let mut c = Cursor::new(b);
    let s = c.read_string()?;
    let k = b.len() - c.remaining();
    Ok((s, k))
}

/// Decodes a counted array of 32-bit integers and the number of bytes it took.
pub fn decode_i32s(b: &[u8]) -> (r: Result<(Vec<i32>, usize), DecodeError>)
    ensures
        match spec_i32s(b@) {
            Some((v, k)) => r is Ok && r->Ok_0.0@ == v && r->Ok_0.1 == k,
            None => r == Err::<(Vec<i32>, usize), DecodeError>(DecodeError::Truncated),
        },
{
    let mut c = Cursor::new(b);
    let v = c.read_i32s()?;
    let k = b.len() - c.remaining();
    Ok((v, k))
}

} // verus!
