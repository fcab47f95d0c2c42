//! Packet envelopes: a two-byte identifier, one reserved byte, a four-byte
//! payload length, then the payload.
use vstd::prelude::*;
use crate::codec::{
    le_bytes, le_value, lemma_le_value_bound, lemma_pow256_values, push_le, read_le, wire_u16,
};

verus! {

/// The size of an envelope's header.
pub const HEADER_LEN: usize = 7;

/// The envelope around `payload`; a length above `u32::MAX` is written modulo 2^32.
pub open spec fn frame(id: u16, payload: Seq<u8>) -> Seq<u8> {
    wire_u16(id) + seq![0u8] + le_bytes(payload.len(), 4) + payload
}

/// Wraps `payload` in an envelope with identifier `id`.
pub fn build_packet(id: u16, payload: Vec<u8>) -> (r: Vec<u8>)
    ensures
        r@ == frame(id, payload@),
{
    let mut payload = payload;
    let ghost p = payload@;
    let mut buf: Vec<u8> = Vec::new();
    push_le(&mut buf, id as u64, 2);
    buf.push(0);
    push_le(&mut buf, payload.len() as u64, 4);
    buf.append(&mut payload);
    assert(buf@ =~= frame(id, p));
    buf
}

/// Why an envelope could not be read.
#[derive(Debug, Clone, Copy, PartialEq, Eq, Structural)]
pub enum FrameError {
    /// Fewer than seven bytes remain.
    ShortHeader,
    /// The declared payload length exceeds the bytes after the header.
    PayloadOverrun,
}

/// The packets that clients send and that the server acts on.
#[derive(Debug, Clone, Copy, PartialEq, Eq, Structural)]
pub enum ClientId {
    ChangeAction,
    SendPublicMessage,
    Logout,
    RequestStatusUpdate,
    Pong,
    SendPrivateMessage,
    PartLobby,
    JoinLobby,
    CreateMatch,
    MatchChangeSettings,
    ChannelJoin,
    ChannelPart,
    UserStatsRequest,
    UserPanelRequest,
    /// Any identifier the server does not act on.
    Unknown(u16),
}

pub open spec fn client_id_of(n: u16) -> ClientId {
    match n {
        0 => ClientId::ChangeAction,
        1 => ClientId::SendPublicMessage,
        2 => ClientId::Logout,
        3 => ClientId::RequestStatusUpdate,
        4 => ClientId::Pong,
        25 => ClientId::SendPrivateMessage,
        29 => ClientId::PartLobby,
        30 => ClientId::JoinLobby,
        31 => ClientId::CreateMatch,
        41 => ClientId::MatchChangeSettings,
        63 => ClientId::ChannelJoin,
        78 => ClientId::ChannelPart,
        85 => ClientId::UserStatsRequest,
        97 => ClientId::UserPanelRequest,
        _ => ClientId::Unknown(n),
    }
}

impl ClientId {
    pub fn from_u16(n: u16) -> (r: ClientId)
        ensures
            r == client_id_of(n),
    {
        match n {
            0 => ClientId::ChangeAction,
            1 => ClientId::SendPublicMessage,
            2 => ClientId::Logout,
            3 => ClientId::RequestStatusUpdate,
            4 => ClientId::Pong,
            25 => ClientId::SendPrivateMessage,
            29 => ClientId::PartLobby,
            30 => ClientId::JoinLobby,
            31 => ClientId::CreateMatch,
            41 => ClientId::MatchChangeSettings,
            63 => ClientId::ChannelJoin,
            78 => ClientId::ChannelPart,
            85 => ClientId::UserStatsRequest,
            97 => ClientId::UserPanelRequest,
            _ => ClientId::Unknown(n),
        }
    }
}

/// The identifier in an envelope header.
pub open spec fn header_id(b: Seq<u8>) -> u16 {
    le_value(b.subrange(0, 2)) as u16
}

/// The payload length in an envelope header.
pub open spec fn header_len(b: Seq<u8>) -> nat {
    le_value(b.subrange(3, 7))
}

/// Reads the envelope header at the front of `buf`: the packet and the length
/// of its payload, which follows the seven header bytes and fits in `buf`.
pub fn parse_packet(buf: &[u8]) -> (r: Result<(ClientId, usize), FrameError>)
    ensures
        buf@.len() < 7 ==> r == Err::<(ClientId, usize), FrameError>(FrameError::ShortHeader),
        buf@.len() >= 7 && 7 + header_len(buf@) > buf@.len() ==> r == Err::<
            (ClientId, usize),
            FrameError,
        >(FrameError::PayloadOverrun),
        buf@.len() >= 7 && 7 + header_len(buf@) <= buf@.len() ==> r == Ok::<
            (ClientId, usize),
            FrameError,
        >((client_id_of(header_id(buf@)), header_len(buf@) as usize)),
{
    if buf.len() < HEADER_LEN {
        return Err(FrameError::ShortHeader);
    }
    let id = read_le(buf, 0, 2);
    let len = read_le(buf, 3, 4);
    proof {
        lemma_le_value_bound(buf@.subrange(0, 2));
        lemma_le_value_bound(buf@.subrange(3, 7));
        lemma_pow256_values();
    }
    if len > (buf.len() - HEADER_LEN) as u64 {
        return Err(FrameError::PayloadOverrun);
    }
    Ok((ClientId::from_u16(id as u16), len as usize))
}

/// The envelopes at the front of `b`, in order, up to the first one that is
/// cut short or the end.
pub open spec fn batch(b: Seq<u8>) -> Seq<(ClientId, Seq<u8>)>
    decreases b.len(),
{
    if b.len() >= 7 && 7 + header_len(b) <= b.len() {
        seq![(client_id_of(header_id(b)), b.subrange(7, 7 + header_len(b) as int))] + batch(
            b.skip(7 + header_len(b) as int),
        )
    } else {
        Seq::empty()
    }
}

} // verus!
