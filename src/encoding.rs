//! One interface over the fixed-width wire types: the size, the encoding,
//! and the decoding of a value, and the law that decoding reads back what
//! encoding wrote.
use vstd::prelude::*;
use crate::codec::{
    encode_bool, encode_i16, encode_i32, encode_u16, encode_u32, encode_u64, encode_u8,
    lemma_fixed_round_trip, spec_bool, spec_i16, spec_i32, spec_u16, spec_u32, spec_u64, spec_u8,
    wire_bool, wire_i16, wire_i32, wire_u16, wire_u32, wire_u64, wire_u8, DecodeError,
};
use crate::codec::{encode_str, encoded_size_str, lemma_str_round_trip, spec_str, wire_str};
use crate::cursor::{
    decode_bool, decode_i16, decode_i32, decode_str, decode_u16, decode_u32, decode_u64, decode_u8,
    lossy_utf8,
};
use vstd::string::StringSliceAdditionalSpecFns;
use vstd::utf8::{decode_utf8, encode_utf8, valid_utf8};

verus! {

pub trait OsuEncode: Sized {
    /// What the value stands for; decoding gives back this much.
    type Model;

    spec fn model(&self) -> Self::Model;

    /// The value's bytes on the wire.
    spec fn wire(&self) -> Seq<u8>;

    /// The model of the value at the front of `b` and how many bytes it
    /// takes, if `b` holds one.
    spec fn parse(b: Seq<u8>) -> Option<(Self::Model, nat)>;

    /// The value's size fits the machine and the wire.
    spec fn fits(&self) -> bool;

    fn encoded_size(&self) -> (r: usize)
        requires
            self.fits(),
        ensures
            r == self.wire().len(),
    ;

    fn encode(&self, buf: &mut Vec<u8>)
        ensures
            final(buf)@ == old(buf)@ + self.wire(),
    ;

    /// The value at the front of `buf` and how many bytes it took.
    fn decode(buf: &[u8]) -> (r: Result<(Self, usize), DecodeError>)
        ensures
            match Self::parse(buf@) {
                Some((v, k)) => r is Ok && r->Ok_0.0.model() == v && r->Ok_0.1 == k,
                None => r is Err,
            },
    ;

    /// A value's wire form parses back as the value, taking exactly its
    /// wire length, whatever follows it.
    proof fn lemma_parse_wire(v: Self, rest: Seq<u8>)
        requires
            v.fits(),
        ensures
            Self::parse(v.wire() + rest) == Some((v.model(), v.wire().len())),
    ;
}

/// For every wire type, decoding the encoding of `v` gives back `v` and
/// consumes exactly its encoded size, whatever bytes follow.
pub proof fn lemma_round_trip<T: OsuEncode>(v: T, rest: Seq<u8>)
    requires
        v.fits(),
    ensures
        T::parse(v.wire() + rest) == Some((v.model(), v.wire().len())),
{
    T::lemma_parse_wire(v, rest);
}

impl OsuEncode for u8 {
    type Model = u8;

    open spec fn model(&self) -> u8 {
        *self
    }

    open spec fn fits(&self) -> bool {
        true
    }

    open spec fn wire(&self) -> Seq<u8> {
        wire_u8(*self)
    }

    open spec fn parse(b: Seq<u8>) -> Option<(u8, nat)> {
        match spec_u8(b) {
            Some(v) => Some((v, 1nat)),
            None => None,
        }
    }

    fn encoded_size(&self) -> (r: usize) {
        1
    }

    fn encode(&self, buf: &mut Vec<u8>) {
        encode_u8(*self, buf);
    }

    fn decode(buf: &[u8]) -> (r: Result<(u8, usize), DecodeError>) {
        decode_u8(buf)
    }

    proof fn lemma_parse_wire(v: u8, rest: Seq<u8>) {
        lemma_fixed_round_trip(v, 0, 0, 0, 0, 0, false, rest);
    }
}

impl OsuEncode for u16 {
    type Model = u16;

    open spec fn model(&self) -> u16 {
        *self
    }

    open spec fn fits(&self) -> bool {
        true
    }

    open spec fn wire(&self) -> Seq<u8> {
        wire_u16(*self)
    }

    open spec fn parse(b: Seq<u8>) -> Option<(u16, nat)> {
        match spec_u16(b) {
            Some(v) => Some((v, 2nat)),
            None => None,
        }
    }

    fn encoded_size(&self) -> (r: usize) {
        proof {
            lemma_fixed_round_trip(0, *self, 0, 0, 0, 0, false, Seq::empty());
        }
        2
    }

    fn encode(&self, buf: &mut Vec<u8>) {
        encode_u16(*self, buf);
    }

    fn decode(buf: &[u8]) -> (r: Result<(u16, usize), DecodeError>) {
        let r = decode_u16(buf);
        proof {
            if let Some(v) = spec_u16(buf@) {
                lemma_fixed_round_trip(0, v, 0, 0, 0, 0, false, Seq::empty());
            }
        }
        r
    }

    proof fn lemma_parse_wire(v: u16, rest: Seq<u8>) {
        lemma_fixed_round_trip(0, v, 0, 0, 0, 0, false, rest);
    }
}

impl OsuEncode for i16 {
    type Model = i16;

    open spec fn model(&self) -> i16 {
        *self
    }

    open spec fn fits(&self) -> bool {
        true
    }

    open spec fn wire(&self) -> Seq<u8> {
        wire_i16(*self)
    }

    open spec fn parse(b: Seq<u8>) -> Option<(i16, nat)> {
        match spec_i16(b) {
            Some(v) => Some((v, 2nat)),
            None => None,
        }
    }

    fn encoded_size(&self) -> (r: usize) {
        proof {
            lemma_fixed_round_trip(0, 0, *self, 0, 0, 0, false, Seq::empty());
        }
        2
    }

    fn encode(&self, buf: &mut Vec<u8>) {
        encode_i16(*self, buf);
    }

    fn decode(buf: &[u8]) -> (r: Result<(i16, usize), DecodeError>) {
        let r = decode_i16(buf);
        proof {
            if let Some(v) = spec_i16(buf@) {
                lemma_fixed_round_trip(0, 0, v, 0, 0, 0, false, Seq::empty());
            }
        }
        r
    }

    proof fn lemma_parse_wire(v: i16, rest: Seq<u8>) {
        lemma_fixed_round_trip(0, 0, v, 0, 0, 0, false, rest);
    }
}

impl OsuEncode for u32 {
    type Model = u32;

    open spec fn model(&self) -> u32 {
        *self
    }

    open spec fn fits(&self) -> bool {
        true
    }

    open spec fn wire(&self) -> Seq<u8> {
        wire_u32(*self)
    }

    open spec fn parse(b: Seq<u8>) -> Option<(u32, nat)> {
        match spec_u32(b) {
            Some(v) => Some((v, 4nat)),
            None => None,
        }
    }

    fn encoded_size(&self) -> (r: usize) {
        proof {
            lemma_fixed_round_trip(0, 0, 0, *self, 0, 0, false, Seq::empty());
        }
        4
    }

    fn encode(&self, buf: &mut Vec<u8>) {
        encode_u32(*self, buf);
    }

    fn decode(buf: &[u8]) -> (r: Result<(u32, usize), DecodeError>) {
        let r = decode_u32(buf);
        proof {
            if let Some(v) = spec_u32(buf@) {
                lemma_fixed_round_trip(0, 0, 0, v, 0, 0, false, Seq::empty());
            }
        }
        r
    }

    proof fn lemma_parse_wire(v: u32, rest: Seq<u8>) {
        lemma_fixed_round_trip(0, 0, 0, v, 0, 0, false, rest);
    }
}

impl OsuEncode for i32 {
    type Model = i32;

    open spec fn model(&self) -> i32 {
        *self
    }

    open spec fn fits(&self) -> bool {
        true
    }

    open spec fn wire(&self) -> Seq<u8> {
        wire_i32(*self)
    }

    open spec fn parse(b: Seq<u8>) -> Option<(i32, nat)> {
        match spec_i32(b) {
            Some(v) => Some((v, 4nat)),
            None => None,
        }
    }

    fn encoded_size(&self) -> (r: usize) {
        proof {
            lemma_fixed_round_trip(0, 0, 0, 0, *self, 0, false, Seq::empty());
        }
        4
    }

    fn encode(&self, buf: &mut Vec<u8>) {
        encode_i32(*self, buf);
    }

    fn decode(buf: &[u8]) -> (r: Result<(i32, usize), DecodeError>) {
        let r = decode_i32(buf);
        proof {
            if let Some(v) = spec_i32(buf@) {
                lemma_fixed_round_trip(0, 0, 0, 0, v, 0, false, Seq::empty());
            }
        }
        r
    }

    proof fn lemma_parse_wire(v: i32, rest: Seq<u8>) {
        lemma_fixed_round_trip(0, 0, 0, 0, v, 0, false, rest);
    }
}

impl OsuEncode for u64 {
    type Model = u64;

    open spec fn model(&self) -> u64 {
        *self
    }

    open spec fn fits(&self) -> bool {
        true
    }

    open spec fn wire(&self) -> Seq<u8> {
        wire_u64(*self)
    }

    open spec fn parse(b: Seq<u8>) -> Option<(u64, nat)> {
        match spec_u64(b) {
            Some(v) => Some((v, 8nat)),
            None => None,
        }
    }

    fn encoded_size(&self) -> (r: usize) {
        proof {
            lemma_fixed_round_trip(0, 0, 0, 0, 0, *self, false, Seq::empty());
        }
        8
    }

    fn encode(&self, buf: &mut Vec<u8>) {
        encode_u64(*self, buf);
    }

    fn decode(buf: &[u8]) -> (r: Result<(u64, usize), DecodeError>) {
        let r = decode_u64(buf);
        proof {
            if let Some(v) = spec_u64(buf@) {
                lemma_fixed_round_trip(0, 0, 0, 0, 0, v, false, Seq::empty());
            }
        }
        r
    }

    proof fn lemma_parse_wire(v: u64, rest: Seq<u8>) {
        lemma_fixed_round_trip(0, 0, 0, 0, 0, v, false, rest);
    }
}

impl OsuEncode for bool {
    type Model = bool;

    open spec fn model(&self) -> bool {
        *self
    }

    open spec fn fits(&self) -> bool {
        true
    }

    open spec fn wire(&self) -> Seq<u8> {
        wire_bool(*self)
    }

    open spec fn parse(b: Seq<u8>) -> Option<(bool, nat)> {
        match spec_bool(b) {
            Some(v) => Some((v, 1nat)),
            None => None,
        }
    }

    fn encoded_size(&self) -> (r: usize) {
        1
    }

    fn encode(&self, buf: &mut Vec<u8>) {
        encode_bool(*self, buf);
    }

    fn decode(buf: &[u8]) -> (r: Result<(bool, usize), DecodeError>) {
        decode_bool(buf)
    }

    proof fn lemma_parse_wire(v: bool, rest: Seq<u8>) {
        lemma_fixed_round_trip(0, 0, 0, 0, 0, 0, v, rest);
    }
}

/// What a string's raw bytes read as: decoded when valid UTF-8, else with
/// each invalid sequence replaced.
pub open spec fn read_chars(b: Seq<u8>) -> Seq<char> {
    if valid_utf8(b) {
        decode_utf8(b)
    } else {
        lossy_utf8(b)
    }
}

impl OsuEncode for String {
    type Model = Seq<char>;

    open spec fn model(&self) -> Seq<char> {
        self@
    }

    open spec fn fits(&self) -> bool {
        encode_utf8(self@).len() <= u32::MAX && encode_utf8(self@).len() + 6 <= usize::MAX
    }

    open spec fn wire(&self) -> Seq<u8> {
        wire_str(self@)
    }

    open spec fn parse(b: Seq<u8>) -> Option<(Seq<char>, nat)> {
        match spec_str(b) {
            Some((bytes, k)) => Some((read_chars(bytes), k)),
            None => None,
        }
    }

    fn encoded_size(&self) -> (r: usize) {
        encoded_size_str(self.as_str())
    }

    fn encode(&self, buf: &mut Vec<u8>) {
        encode_str(self.as_str(), buf);
    }

    fn decode(buf: &[u8]) -> (r: Result<(String, usize), DecodeError>) {
        decode_str(buf)
    }

    proof fn lemma_parse_wire(v: String, rest: Seq<u8>) {
        lemma_str_round_trip(v@, rest);
    }
}

} // verus!
