//! The packets the server sends, each a payload in an envelope.
use vstd::prelude::*;
use crate::channel::{display_name_of, Channel};
use crate::codec::{
    encode_bool, encode_i16, encode_i32, encode_i32s, encode_str, encode_u16, encode_u32,
    encode_u64, encode_u8, push_bytes, wire_bool, wire_i16, wire_i32, wire_i32s, wire_str, wire_u16,
    wire_u32, wire_u64, wire_u8,
};
use crate::frame::{build_packet, frame};
use crate::matches::{
    scoring_code, slot_ids_spec, slot_mods_spec, status_code, team_code, team_type_code, Match,
};
use crate::session::{action_code, game_mode_code, Stats};

verus! {

pub const USER_ID: u16 = 5;
pub const SEND_MESSAGE: u16 = 7;
pub const USER_STATS: u16 = 11;
pub const USER_LOGOUT: u16 = 12;
pub const NOTIFICATION: u16 = 24;
pub const UPDATE_MATCH: u16 = 26;
pub const NEW_MATCH: u16 = 27;
pub const MATCH_JOIN_SUCCESS: u16 = 36;
pub const MATCH_JOIN_FAIL: u16 = 37;
pub const MATCH_TRANSFER_HOST: u16 = 50;
pub const CHANNEL_JOIN_SUCCESS: u16 = 64;
pub const CHANNEL_INFO: u16 = 65;
pub const CHANNEL_KICKED: u16 = 66;
pub const SUPPORTER_GMT: u16 = 71;
pub const FRIENDS_LIST: u16 = 72;
pub const PROTOCOL_VERSION: u16 = 75;
pub const MAIN_MENU_ICON: u16 = 76;
pub const USER_PANEL: u16 = 83;
pub const CHANNEL_INFO_END: u16 = 89;
pub const SILENCE_END: u16 = 92;
pub const USER_PRESENCE_BUNDLE: u16 = 96;
pub const JUMPSCARE: u16 = 105;

/// The user id a failed login reports.
pub const LOGIN_FAILED_ID: i32 = -1;

/// The user id an errored login reports.
pub const LOGIN_ERROR_ID: i32 = -5;

pub fn silence_end(sec: u32) -> (r: Vec<u8>)
    ensures
        r@ == frame(SILENCE_END, wire_u32(sec)),
{
    let mut p: Vec<u8> = Vec::new();
    encode_u32(sec, &mut p);
    build_packet(SILENCE_END, p)
}

pub fn protocol_ver(version: u32) -> (r: Vec<u8>)
    ensures
        r@ == frame(PROTOCOL_VERSION, wire_u32(version)),
{
    let mut p: Vec<u8> = Vec::new();
    encode_u32(version, &mut p);
    build_packet(PROTOCOL_VERSION, p)
}

/// The ids of the users online.
pub fn online_users(users: &[i32]) -> (r: Vec<u8>)
    ensures
        r@ == frame(USER_PRESENCE_BUNDLE, wire_i32s(users@)),
{
    let mut p: Vec<u8> = Vec::new();
    encode_i32s(users, &mut p);
    build_packet(USER_PRESENCE_BUNDLE, p)
}

pub fn friend_list(users: &[i32]) -> (r: Vec<u8>)
    ensures
        r@ == frame(FRIENDS_LIST, wire_i32s(users@)),
{
    let mut p: Vec<u8> = Vec::new();
    encode_i32s(users, &mut p);
    build_packet(FRIENDS_LIST, p)
}

pub fn user_id(id: i32) -> (r: Vec<u8>)
    ensures
        r@ == frame(USER_ID, wire_i32(id)),
{
    let mut p: Vec<u8> = Vec::new();
    encode_i32(id, &mut p);
    build_packet(USER_ID, p)
}

pub fn login_failed() -> (r: Vec<u8>)
    ensures
        r@ == frame(USER_ID, wire_i32(LOGIN_FAILED_ID)),
{
    user_id(LOGIN_FAILED_ID)
}

pub fn login_error() -> (r: Vec<u8>)
    ensures
        r@ == frame(USER_ID, wire_i32(LOGIN_ERROR_ID)),
{
    user_id(LOGIN_ERROR_ID)
}

/// A failed login followed by a notification that says why.
pub fn login_banned() -> (r: Vec<u8>)
    ensures
        r@ == frame(USER_ID, wire_i32(LOGIN_FAILED_ID)) + frame(
            NOTIFICATION,
            wire_str("You have been banned"@),
        ),
{
    let mut r = login_failed();
    let mut n = notification("You have been banned");
    r.append(&mut n);
    r
}

/// The user's supporter rank.
pub fn user_rank(rank: u32) -> (r: Vec<u8>)
    ensures
        r@ == frame(SUPPORTER_GMT, wire_u32(rank)),
{
    let mut p: Vec<u8> = Vec::new();
    encode_u32(rank, &mut p);
    build_packet(SUPPORTER_GMT, p)
}

pub fn logout(id: i32) -> (r: Vec<u8>)
    ensures
        r@ == frame(USER_LOGOUT, wire_i32(id) + wire_u8(0)),
{
    let mut p: Vec<u8> = Vec::new();
    encode_i32(id, &mut p);
    encode_u8(0, &mut p);
    build_packet(USER_LOGOUT, p)
}

/// A user's panel: id, name, time zone, country, rank flags, a location at
/// the origin (two zero floats) and the global rank.
pub open spec fn user_panel_payload(id: i32, username: Seq<char>) -> Seq<u8> {
    wire_i32(id) + wire_str(username) + wire_i16(0) + wire_u8(16) + wire_u32(0) + wire_u32(0)
        + wire_u32(1)
}

pub fn user_panel(id: i32, username: &str) -> (r: Vec<u8>)
    ensures
        r@ == frame(USER_PANEL, user_panel_payload(id, username@)),
{
    let mut p: Vec<u8> = Vec::new();
    encode_i32(id, &mut p);
    encode_str(username, &mut p);
    encode_i16(0, &mut p);
    encode_u8(16, &mut p);
    encode_u32(0, &mut p);
    encode_u32(0, &mut p);
    encode_u32(1, &mut p);
    assert(p@ =~= user_panel_payload(id, username@));
    build_packet(USER_PANEL, p)
}

pub open spec fn user_stats_payload(id: i32, s: &Stats) -> Seq<u8> {
    wire_i32(id) + wire_u8(action_code(s.action)) + wire_str(s.action_text@) + wire_str(
        s.action_md5@,
    ) + wire_u32(s.action_mods) + wire_u8(game_mode_code(s.game_mode)) + wire_u32(s.beatmap_id)
        + wire_u64(s.ranked_score) + wire_u32(s.accuracy_bits) + wire_u32(s.playcount) + wire_u64(
        s.total_score,
    ) + wire_u32(s.rank) + wire_u16(s.pp)
}

pub fn user_stats(id: i32, s: &Stats) -> (r: Vec<u8>)
    ensures
        r@ == frame(USER_STATS, user_stats_payload(id, s)),
{
    let mut p: Vec<u8> = Vec::new();
    encode_i32(id, &mut p);
    encode_u8(s.action.code(), &mut p);
    encode_str(s.action_text.as_str(), &mut p);
    encode_str(s.action_md5.as_str(), &mut p);
    encode_u32(s.action_mods, &mut p);
    encode_u8(s.game_mode.code(), &mut p);
    encode_u32(s.beatmap_id, &mut p);
    encode_u64(s.ranked_score, &mut p);
    encode_u32(s.accuracy_bits, &mut p);
    encode_u32(s.playcount, &mut p);
    encode_u64(s.total_score, &mut p);
    encode_u32(s.rank, &mut p);
    encode_u16(s.pp, &mut p);
    assert(p@ =~= user_stats_payload(id, s));
    build_packet(USER_STATS, p)
}

pub open spec fn message_payload(from: Seq<char>, from_id: i32, to: Seq<char>, content: Seq<char>) -> Seq<u8> {
    wire_str(from) + wire_str(content) + wire_str(to) + wire_i32(from_id)
}

/// A chat message from the user `from` to a channel or user named `to`.
pub fn send_message(from: &str, from_id: i32, to: &str, content: &str) -> (r: Vec<u8>)
    ensures
        r@ == frame(SEND_MESSAGE, message_payload(from@, from_id, to@, content@)),
{
    let mut p: Vec<u8> = Vec::new();
    encode_str(from, &mut p);
    encode_str(content, &mut p);
    encode_str(to, &mut p);
    encode_i32(from_id, &mut p);
    assert(p@ =~= message_payload(from@, from_id, to@, content@));
    build_packet(SEND_MESSAGE, p)
}

pub open spec fn channel_info_payload(c: &Channel) -> Seq<u8> {
    wire_str(display_name_of(c.name@)) + wire_str(c.desc@) + wire_u16(
        #[verifier::truncate] (c.members@.len() as u16),
    )
}

/// A channel's shown name, description and member count.
pub fn channel_info(c: &Channel) -> (r: Vec<u8>)
    ensures
        r@ == frame(CHANNEL_INFO, channel_info_payload(c)),
{
    let mut p: Vec<u8> = Vec::new();
    encode_str(c.display_name(), &mut p);
    encode_str(c.desc.as_str(), &mut p);
    encode_u16(c.members.len() as u16, &mut p);
    assert(p@ =~= channel_info_payload(c));
    build_packet(CHANNEL_INFO, p)
}

/// The end of the channel list.
pub fn channel_info_end() -> (r: Vec<u8>)
    ensures
        r@ == frame(CHANNEL_INFO_END, wire_u32(0)),
{
    let mut p: Vec<u8> = Vec::new();
    encode_u32(0, &mut p);
    build_packet(CHANNEL_INFO_END, p)
}

pub fn channel_join_success(c: &Channel) -> (r: Vec<u8>)
    ensures
        r@ == frame(CHANNEL_JOIN_SUCCESS, wire_str(display_name_of(c.name@))),
{
    let mut p: Vec<u8> = Vec::new();
    encode_str(c.display_name(), &mut p);
    build_packet(CHANNEL_JOIN_SUCCESS, p)
}

pub fn channel_kicked(c: &Channel) -> (r: Vec<u8>)
    ensures
        r@ == frame(CHANNEL_KICKED, wire_str(display_name_of(c.name@))),
{
    let mut p: Vec<u8> = Vec::new();
    encode_str(c.display_name(), &mut p);
    build_packet(CHANNEL_KICKED, p)
}

pub fn match_join_fail() -> (r: Vec<u8>)
    ensures
        r@ == frame(MATCH_JOIN_FAIL, Seq::empty()),
{
    let p: Vec<u8> = Vec::new();
    build_packet(MATCH_JOIN_FAIL, p)
}

pub fn match_transfer_host() -> (r: Vec<u8>)
    ensures
        r@ == frame(MATCH_TRANSFER_HOST, Seq::empty()),
{
    let p: Vec<u8> = Vec::new();
    build_packet(MATCH_TRANSFER_HOST, p)
}

pub fn notification(text: &str) -> (r: Vec<u8>)
    ensures
        r@ == frame(NOTIFICATION, wire_str(text@)),
{
    let mut p: Vec<u8> = Vec::new();
    encode_str(text, &mut p);
    build_packet(NOTIFICATION, p)
}

pub fn menu_icon(url: &str) -> (r: Vec<u8>)
    ensures
        r@ == frame(MAIN_MENU_ICON, wire_str(url@)),
{
    let mut p: Vec<u8> = Vec::new();
    encode_str(url, &mut p);
    build_packet(MAIN_MENU_ICON, p)
}

pub fn jumpscare(text: &str) -> (r: Vec<u8>)
    ensures
        r@ == frame(JUMPSCARE, wire_str(text@)),
{
    let mut p: Vec<u8> = Vec::new();
    encode_str(text, &mut p);
    build_packet(JUMPSCARE, p)
}

/// The full state of a match as clients read it.
pub open spec fn match_data_spec(m: &Match) -> Seq<u8> {
    wire_u16(m.id) + wire_bool(m.in_progress) + wire_u8(0) + wire_u32(m.mods) + wire_str(m.name@)
        + wire_str(m.password@) + wire_str(m.beatmap_name@) + wire_u32(m.beatmap_id) + wire_str(
        m.beatmap_md5@,
    ) + Seq::new(m.slots@.len(), |i: int| status_code(m.slots@[i].status)) + Seq::new(
        m.slots@.len(),
        |i: int| team_code(m.slots@[i].team),
    ) + slot_ids_spec(m.slots@) + wire_i32(m.host_id) + wire_u8(m.game_mode) + wire_u8(
        scoring_code(m.scoring_type),
    ) + wire_u8(team_type_code(m.team_type)) + wire_bool(m.freemod) + (if m.freemod {
        slot_mods_spec(m.slots@)
    } else {
        Seq::empty()
    }) + wire_u32(0)
}

pub fn match_data(m: &Match) -> (r: Vec<u8>)
    ensures
        r@ == match_data_spec(m),
{
    let mut p: Vec<u8> = Vec::new();
    encode_u16(m.id, &mut p);
    encode_bool(m.in_progress, &mut p);
    encode_u8(0, &mut p);
    encode_u32(m.mods, &mut p);
    encode_str(m.name.as_str(), &mut p);
    encode_str(m.password.as_str(), &mut p);
    encode_str(m.beatmap_name.as_str(), &mut p);
    encode_u32(m.beatmap_id, &mut p);
    encode_str(m.beatmap_md5.as_str(), &mut p);
    let statuses = m.slot_statuses();
    push_bytes(&mut p, statuses.as_slice());
    let teams = m.slot_teams();
    push_bytes(&mut p, teams.as_slice());
    let ids = m.slot_ids();
    push_bytes(&mut p, ids.as_slice());
    encode_i32(m.host_id, &mut p);
    encode_u8(m.game_mode, &mut p);
    encode_u8(m.scoring_type.code(), &mut p);
    encode_u8(m.team_type.code(), &mut p);
    encode_bool(m.freemod, &mut p);
    let mods = m.slot_mods();
    push_bytes(&mut p, mods.as_slice());
    encode_u32(0, &mut p);
    assert(p@ =~= match_data_spec(m));
    p
}

/// A new match, as announced to the lobby.
pub fn create_match(m: &Match) -> (r: Vec<u8>)
    ensures
        r@ == frame(NEW_MATCH, match_data_spec(m)),
{
    build_packet(NEW_MATCH, match_data(m))
}

pub fn update_match(m: &Match) -> (r: Vec<u8>)
    ensures
        r@ == frame(UPDATE_MATCH, match_data_spec(m)),
{
    build_packet(UPDATE_MATCH, match_data(m))
}

pub fn match_join_success(m: &Match) -> (r: Vec<u8>)
    ensures
        r@ == frame(MATCH_JOIN_SUCCESS, match_data_spec(m)),
{
    build_packet(MATCH_JOIN_SUCCESS, match_data(m))
}

} // verus!
