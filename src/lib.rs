//! A multiplayer game server core: the binary wire codec, packet framing,
//! and the session, channel and match state that dispatched packets mutate.
use vstd::prelude::*;

pub mod codec;
pub mod encoding;
pub mod leb;
pub mod cursor;
pub mod frame;
pub mod session;
pub mod channel;
pub mod matches;
pub mod packets;
pub mod settings;
pub mod server;
pub mod liveness;
pub mod http;

verus! {

} // verus!
