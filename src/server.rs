//! The server state as one value, and what each request does to it: login,
//! logout, and the dispatch of a batch of packets.
use vstd::prelude::*;
use vstd::string::StringExecFns;
use crate::channel::{
    channels_parted, display_name_of, match_channel_name, match_channel_spec, multi_alias, Channel,
    ChannelList,
};
use crate::codec::{spec_i32s, spec_str, wire_i32, wire_i32s, wire_str, wire_u32, wire_u8, DecodeError};
use crate::cursor::{decode_i32s, decode_str, lossy_utf8, Cursor};
use crate::frame::{batch, frame, header_len, parse_packet, ClientId, HEADER_LEN};
use crate::matches::{
    same_but_slots, settings_changed, slots_freed, MatchList, Slot, SlotStatus, SLOT_COUNT,
};
use crate::packets;
use crate::packets::{
    channel_info, channel_info_end, channel_info_payload, friend_list, match_data_spec,
    message_payload, online_users, protocol_ver, silence_end, user_id, user_panel,
    user_panel_payload, user_rank, user_stats, user_stats_payload, CHANNEL_INFO, CHANNEL_INFO_END,
    FRIENDS_LIST, USER_LOGOUT, CHANNEL_JOIN_SUCCESS, CHANNEL_KICKED, NEW_MATCH, PROTOCOL_VERSION, UPDATE_MATCH, SEND_MESSAGE, SILENCE_END, SUPPORTER_GMT, USER_ID,
    USER_PANEL, USER_PRESENCE_BUNDLE, USER_STATS,
};
use crate::session::{action_code, all_enqueued, Action, LoginError, Session, SessionKind, SessionList};
use crate::settings::{decode_settings, p_str, p_u32, p_u8, settings_spec, trimmed, SettingsWire};

verus! {

/// The protocol version announced at login.
pub const PROTOCOL: u32 = 19;

/// The supporter rank announced at login.
pub const DEFAULT_RANK: u32 = 38;

/// The user id of the server's bot.
pub const BOT_ID: i32 = 3;

/// Every session's panel, in registry order.
pub open spec fn panels_spec(s: Seq<Session>) -> Seq<u8>
    decreases s.len(),
{
    if s.len() == 0 {
        Seq::empty()
    } else {
        panels_spec(s.drop_last()) + frame(USER_PANEL, user_panel_payload(s.last().id, s.last().username@))
    }
}

/// The info of every public channel, in registry order.
pub open spec fn public_infos_spec(c: Seq<Channel>) -> Seq<u8>
    decreases c.len(),
{
    if c.len() == 0 {
        Seq::empty()
    } else {
        public_infos_spec(c.drop_last()) + if c.last().public {
            frame(CHANNEL_INFO, channel_info_payload(&c.last()))
        } else {
            Seq::empty()
        }
    }
}

/// The ids of the sessions, in registry order.
pub open spec fn ids_of(s: Seq<Session>) -> Seq<i32> {
    Seq::new(s.len(), |i: int| s[i].id)
}

/// What a successful login answers, for the new session `me` once registered
/// among `sessions`.
pub open spec fn login_response(me: Session, sessions: Seq<Session>, channels: Seq<Channel>) -> Seq<u8> {
    frame(SILENCE_END, wire_u32(0)) + frame(PROTOCOL_VERSION, wire_u32(PROTOCOL)) + frame(
        USER_ID,
        wire_i32(me.id),
    ) + frame(SUPPORTER_GMT, wire_u32(DEFAULT_RANK)) + frame(FRIENDS_LIST, wire_i32s(Seq::empty()))
        + frame(USER_PANEL, user_panel_payload(me.id, me.username@)) + frame(
        USER_STATS,
        user_stats_payload(me.id, &me.stats),
    ) + frame(USER_PRESENCE_BUNDLE, wire_i32s(ids_of(sessions))) + panels_spec(sessions) + frame(
        CHANNEL_INFO_END,
        wire_u32(0),
    ) + public_infos_spec(channels)
}

/// Why a request on the state was refused.
#[derive(Debug, Clone, Copy, PartialEq, Eq, Structural)]
pub enum StateError {
    /// No session holds the token.
    NoSuchSession,
}

/// After the logout of user `id` holding `token`: no session holds the token
/// or the id; each channel that had the user has exactly one member fewer,
/// the others are unchanged; no slot holds the user and the lobby neither.
pub open spec fn logged_out(before: &Server, after: &Server, id: i32, token: Seq<char>) -> bool {
    &&& sessions_gone(before.sessions@, after.sessions@, id, token)
    &&& channels_parted(before.channels@, after.channels@, id)
    &&& slots_freed(before.matches@, after.matches@, id)
    &&& !after.lobby@.contains(id)
}

/// The session holding `token` is removed and every other one is told of
/// the logout; none holds the token or the id any more.
pub open spec fn sessions_gone(before: Seq<Session>, after: Seq<Session>, id: i32, token: Seq<char>) -> bool {
    &&& forall|i: int| 0 <= i < after.len() ==> (#[trigger] after[i]).token@ != token
        && after[i].id != id
    &&& after.len() == before.len() - 1
    &&& exists|i: int| 0 <= i < before.len() && (#[trigger] before[i]).token@ == token && before[i].id == id
        && all_enqueued(before.remove(i), after, frame(USER_LOGOUT, wire_i32(id) + wire_u8(0)))
}

/// What the bot says when it frees the slot of a player who is gone.
pub const SLOT_FREED_NOTICE: &'static str = "A slot of this match held a player who is gone; it is free again";

/// The slot's player is no longer registered.
pub open spec fn player_gone(slot: Slot, s: Seq<Session>) -> bool {
    slot.occupant matches Some(u) && !(exists|i: int| 0 <= i < s.len() && (#[trigger] s[i]).id == u)
}

/// The slot, freed when its player is gone.
pub open spec fn refreshed(slot: Slot, s: Seq<Session>) -> Slot {
    if player_gone(slot, s) {
        Slot::free_spec()
    } else {
        slot
    }
}

/// The queues after a match update: when a slot was freed, the bot's notice
/// to the match channel's members; then the match's new state to its
/// channel's members and the lobby, once each.
pub open spec fn update_sent(before: &Server, after: &Server, mi: int) -> bool {
    let m = after.matches@[mi];
    let chan = match_channel_spec(m.id);
    let members = members_named(before.channels@, chan);
    let freed = exists|q: int| 0 <= q < before.matches@[mi].slots@.len() && #[trigger] player_gone(before.matches@[mi].slots@[q], before.sessions@);
    let notice = frame(SEND_MESSAGE, message_payload(BOT_NAME@, BOT_ID, display_name_of(chan), SLOT_FREED_NOTICE@));
    let upd = frame(UPDATE_MATCH, match_data_spec(&m));
    forall|k: int| 0 <= k < before.sessions@.len() ==> (#[trigger] after.sessions@[k]).queue@
        == before.sessions@[k].queue@ + (if freed && members.contains(before.sessions@[k].id)
            && before.sessions@[k].is_player() { notice } else { Seq::empty() })
        + (if (members.contains(before.sessions@[k].id) || before.lobby@.contains(before.sessions@[k].id))
            && before.sessions@[k].is_player() { upd } else { Seq::empty() })
}

/// Only queues changed.
pub open spec fn quiet(before: Seq<Session>, after: Seq<Session>) -> bool {
    &&& after.len() == before.len()
    &&& forall|i: int| 0 <= i < before.len() ==> (#[trigger] after[i]).same_but_queue(before[i])
}

/// Some channel is named `n`.
pub open spec fn has_channel(cs: Seq<Channel>, n: Seq<char>) -> bool {
    exists|ci: int| 0 <= ci < cs.len() && (#[trigger] cs[ci]).name@ == n
}

/// The members of the channel named `n`; none when there is no such channel.
pub open spec fn members_named(cs: Seq<Channel>, n: Seq<char>) -> Seq<i32> {
    if has_channel(cs, n) {
        cs[choose|ci: int| 0 <= ci < cs.len() && (#[trigger] cs[ci]).name@ == n].members@
    } else {
        Seq::empty()
    }
}

/// With distinct names, the channel at `ci` is the one named by its name.
pub proof fn lemma_members_named(cs: Seq<Channel>, ci: int)
    requires
        0 <= ci < cs.len(),
        forall|i: int, j: int| 0 <= i < j < cs.len() ==> cs[i].name@ != cs[j].name@,
    ensures
        has_channel(cs, cs[ci].name@),
        members_named(cs, cs[ci].name@) == cs[ci].members@,
{
    let n = cs[ci].name@;
    assert(cs[ci].name@ == n);
    let c = choose|k: int| 0 <= k < cs.len() && (#[trigger] cs[k]).name@ == n;
    if c != ci {
        if c < ci {
            assert(cs[c].name@ != cs[ci].name@);
        } else {
            assert(cs[ci].name@ != cs[c].name@);
        }
    }
}

/// Delivery counted from a state whose queues and kinds are those of `a`.
pub proof fn lemma_delivered_from(a: Seq<Session>, m: Seq<Session>, f: Seq<Session>, ids: Seq<i32>, bytes: Seq<u8>, exclude: Option<i32>)
    requires
        stable(a, m),
        forall|i: int| 0 <= i < a.len() ==> (#[trigger] m[i]).queue@ == a[i].queue@,
        delivered(m, f, ids, bytes, exclude),
    ensures
        delivered(a, f, ids, bytes, exclude),
{
    assert forall|i: int| 0 <= i < a.len() implies (#[trigger] f[i]).queue@ == if ids.contains(a[i].id)
        && exclude != Some(a[i].id) && a[i].is_player() {
        a[i].queue@ + bytes
    } else {
        a[i].queue@
    } by {
        assert(m[i].id == a[i].id && m[i].kind == a[i].kind);
        assert(m[i].queue@ == a[i].queue@);
    }
}

/// Each player whose id is in `ids`, but for `exclude`, got `bytes` once
/// more in its queue; every other queue is as it was.
pub open spec fn delivered(before: Seq<Session>, after: Seq<Session>, ids: Seq<i32>, bytes: Seq<u8>, exclude: Option<i32>) -> bool {
    &&& after.len() == before.len()
    &&& forall|i: int| 0 <= i < before.len() ==> (#[trigger] after[i]).queue@ == if ids.contains(before[i].id)
        && exclude != Some(before[i].id) && before[i].is_player() {
        before[i].queue@ + bytes
    } else {
        before[i].queue@
    }
}

/// The fields of an action change: the action code, its text and beatmap
/// checksum as raw bytes, and the mods.
pub open spec fn action_data_spec(b: Seq<u8>) -> Option<(u8, Seq<u8>, Seq<u8>, u32)> {
    match p_u8(b) {
        None => None,
        Some((code, b)) => match p_str(b) {
            None => None,
            Some((text, b)) => match p_str(b) {
                None => None,
                Some((md5, b)) => match p_u32(b) {
                    None => None,
                    Some((mods, _)) => Some((code, text, md5, mods)),
                },
            },
        },
    }
}

/// A ready slot goes back to not ready when `reset` holds.
pub open spec fn demote(s: Slot, reset: bool) -> Slot {
    if reset && s.status == SlotStatus::Ready {
        Slot { status: SlotStatus::NotReady, ..s }
    } else {
        s
    }
}

/// The match after its host applied the settings `w`: the fields are those
/// sent, ready slots are demoted when the mods or beatmap checksum changed,
/// and exactly the slots whose player is no longer registered are freed.
pub open spec fn settings_applied(before: &crate::matches::Match, after: &crate::matches::Match, w: SettingsWire, sessions: Seq<Session>) -> bool {
    let reset = before.mods != w.head.mods || before.beatmap_md5@ != lossy_utf8(w.head.beatmap_md5);
    &&& after.id == before.id
    &&& after.host_id == before.host_id
    &&& after.name@ == trimmed(lossy_utf8(w.head.name))
    &&& after.in_progress == w.head.in_progress
    &&& after.mods == w.head.mods
    &&& after.beatmap_name@ == lossy_utf8(w.head.beatmap_name)
    &&& after.beatmap_id == w.head.beatmap_id
    &&& after.beatmap_md5@ == lossy_utf8(w.head.beatmap_md5)
    &&& after.game_mode == w.tail.game_mode
    &&& after.scoring_type == w.tail.scoring_type
    &&& after.team_type == w.tail.team_type
    &&& after.freemod == w.tail.freemod
    &&& after.slots@.len() == before.slots@.len()
    &&& forall|j: int| 0 <= j < before.slots@.len() ==>
        #[trigger] after.slots@[j] == refreshed(demote(before.slots@[j], reset), sessions)
}

/// What a request to change the settings of the requester's match does.
/// It succeeds exactly when the requester is a player in a match it hosts
/// and the payload decodes. On failure nothing changes, but for forgetting
/// a match that no longer exists. On success the settings are applied, and
/// the new state is sent as `update_sent` says.
pub open spec fn change_settings_post(b: Server, a: Server, me: int, data: Seq<u8>, r: Result<(), &'static str>) -> bool {
    let s = b.sessions@[me];
    let mid = s.match_id->Some_0;
    let w = settings_spec(data)->Some_0;
    &&& stable(b.sessions@, a.sessions@)
    &&& a.channels@ == b.channels@
    &&& a.lobby@ == b.lobby@
    &&& a.matches@.len() == b.matches@.len()
    &&& (r is Ok <==> (s.is_player() && s.match_id is Some && (mid as int) < b.matches@.len()
        && b.matches@[mid as int].host_id == s.id && settings_spec(data) is Some))
    &&& r is Err ==> a.matches@ == b.matches@ && (a.sessions@ == b.sessions@ || (s.match_id is Some
        && (mid as int) >= b.matches@.len() && a.sessions@ == b.sessions@.update(me, Session { match_id: None, ..s })))
    &&& r is Ok ==> {
        &&& settings_applied(&b.matches@[mid as int], &a.matches@[mid as int], w, b.sessions@)
        &&& forall|k: int| 0 <= k < b.matches@.len() && k != mid ==> #[trigger] a.matches@[k] == b.matches@[k]
        &&& quiet(b.sessions@, a.sessions@)
        &&& exists|m: Server| #![trigger update_sent(&m, &a, mid as int)]
            m.sessions@ == b.sessions@ && m.channels@ == b.channels@ && m.lobby@ == b.lobby@
            && m.matches@.len() == b.matches@.len()
            && m.matches@[mid as int].slots@.len() == b.matches@[mid as int].slots@.len()
            && (forall|j: int| 0 <= j < b.matches@[mid as int].slots@.len() ==>
                #[trigger] m.matches@[mid as int].slots@[j].occupant == b.matches@[mid as int].slots@[j].occupant)
            && update_sent(&m, &a, mid as int)
    }
}

/// The stats of every session whose id is listed, in registry order.
pub open spec fn listed_stats(s: Seq<Session>, ids: Seq<i32>) -> Seq<u8>
    decreases s.len(),
{
    if s.len() == 0 {
        Seq::empty()
    } else {
        listed_stats(s.drop_last(), ids) + if ids.contains(s.last().id) {
            frame(USER_STATS, user_stats_payload(s.last().id, &s.last().stats))
        } else {
            Seq::empty()
        }
    }
}

/// The panel of every session whose id is listed, in registry order.
pub open spec fn listed_panels(s: Seq<Session>, ids: Seq<i32>) -> Seq<u8>
    decreases s.len(),
{
    if s.len() == 0 {
        Seq::empty()
    } else {
        listed_panels(s.drop_last(), ids) + if ids.contains(s.last().id) {
            frame(USER_PANEL, user_panel_payload(s.last().id, s.last().username@))
        } else {
            Seq::empty()
        }
    }
}

/// Every match as announced to the lobby, in order.
pub open spec fn match_listing(m: Seq<crate::matches::Match>) -> Seq<u8>
    decreases m.len(),
{
    if m.len() == 0 {
        Seq::empty()
    } else {
        match_listing(m.drop_last()) + frame(NEW_MATCH, match_data_spec(&m.last()))
    }
}

/// Some envelope of the batch is a logout.
pub open spec fn logs_out(fs: Seq<(ClientId, Seq<u8>)>) -> bool {
    exists|i: int| 0 <= i < fs.len() && (#[trigger] fs[i]).0 == ClientId::Logout
}

/// A keep-alive comes before any logout in the batch.
pub open spec fn keeps_alive(fs: Seq<(ClientId, Seq<u8>)>) -> bool {
    exists|i: int|
        0 <= i < fs.len() && (#[trigger] fs[i]).0 == ClientId::Pong && forall|j: int| 0 <= j < i ==> fs[j].0 != ClientId::Logout
}

proof fn lemma_flags_push(done: Seq<(ClientId, Seq<u8>)>, f: (ClientId, Seq<u8>))
    requires
        !logs_out(done),
    ensures
        logs_out(done.push(f)) <==> f.0 == ClientId::Logout,
        keeps_alive(done.push(f)) <==> keeps_alive(done) || f.0 == ClientId::Pong,
{
    let d = done.push(f);
    if logs_out(d) {
        let i = choose|i: int| 0 <= i < d.len() && (#[trigger] d[i]).0 == ClientId::Logout;
        if i < done.len() {
            assert(done[i] == d[i]);
        }
    }
    if f.0 == ClientId::Logout {
        assert(d[done.len() as int] == f);
    }
    if keeps_alive(d) {
        let i = choose|i: int| 0 <= i < d.len() && (#[trigger] d[i]).0 == ClientId::Pong && forall|j: int| 0 <= j < i ==> d[j].0 != ClientId::Logout;
        if i < done.len() {
            assert(done[i] == d[i]);
            assert forall|j: int| 0 <= j < i implies done[j].0 != ClientId::Logout by {
                assert(done[j] == d[j]);
            }
        }
    }
    if keeps_alive(done) {
        let i = choose|i: int| 0 <= i < done.len() && (#[trigger] done[i]).0 == ClientId::Pong && forall|j: int| 0 <= j < i ==> done[j].0 != ClientId::Logout;
        assert(d[i] == done[i]);
        assert forall|j: int| 0 <= j < i implies d[j].0 != ClientId::Logout by {
            assert(done[j] == d[j]);
        }
    }
    if f.0 == ClientId::Pong {
        let i = done.len() as int;
        assert(d[i] == f);
        assert forall|j: int| 0 <= j < i implies d[j].0 != ClientId::Logout by {
            assert(done[j] == d[j]);
            if done[j].0 == ClientId::Logout {
                assert(logs_out(done));
            }
        }
    }
}

/// A batch whose processed part ends with a logout: the whole batch logs
/// out, and keeps alive exactly when the processed part does.
proof fn lemma_prefix_flags(done: Seq<(ClientId, Seq<u8>)>, rest: Seq<(ClientId, Seq<u8>)>)
    requires
        done.len() > 0,
        done.last().0 == ClientId::Logout,
    ensures
        logs_out(done + rest),
        keeps_alive(done + rest) <==> keeps_alive(done),
{
    let all = done + rest;
    let l = done.len() - 1;
    assert(all[l] == done[l]);
    if keeps_alive(all) {
        let i = choose|i: int| 0 <= i < all.len() && (#[trigger] all[i]).0 == ClientId::Pong && forall|j: int| 0 <= j < i ==> all[j].0 != ClientId::Logout;
        if i > l {
            assert(all[l].0 != ClientId::Logout);
        }
        assert(i < done.len());
        assert(done[i] == all[i]);
        assert forall|j: int| 0 <= j < i implies done[j].0 != ClientId::Logout by {
            assert(done[j] == all[j]);
        }
    }
    if keeps_alive(done) {
        let i = choose|i: int| 0 <= i < done.len() && (#[trigger] done[i]).0 == ClientId::Pong && forall|j: int| 0 <= j < i ==> done[j].0 != ClientId::Logout;
        assert(all[i] == done[i]);
        assert forall|j: int| 0 <= j < i implies all[j].0 != ClientId::Logout by {
            assert(done[j] == all[j]);
        }
    }
}

/// The channel a public message goes to: the addressee, with
/// `#multiplayer` standing for the sender's match channel.
pub open spec fn public_target(s: Session, data: Seq<u8>) -> Option<Seq<char>> {
    match message_spec(data) {
        None => None,
        Some((_, t)) => if lossy_utf8(t) == multi_alias() {
            match s.match_id {
                Some(m) => Some(match_channel_spec(m)),
                None => None,
            }
        } else {
            Some(lossy_utf8(t))
        },
    }
}

/// A public message is accepted: it decodes, its channel exists and the
/// sender is a member.
pub open spec fn public_ok(b: Server, me: int, data: Seq<u8>) -> bool {
    let s = b.sessions@[me];
    let n = public_target(s, data)->Some_0;
    public_target(s, data) is Some && has_channel(b.channels@, n) && members_named(b.channels@, n).contains(s.id)
}

/// What `Server::change_action` does.
pub open spec fn change_action_post(b: Server, a: Server, me: int, data: Seq<u8>, r: Result<(), &'static str>) -> bool {
    &&& (stable(b.sessions@, a.sessions@))
    &&& (a.channels@ == b.channels@)
    &&& (a.matches@ == b.matches@)
    &&& (r is Ok <==> (action_data_spec(data) matches Some((code, _, _, _)) && code <= 14
            && b.sessions@[me].is_player()))
    &&& (r is Err ==> a.sessions@ == b.sessions@)
    &&& (r is Ok ==> (action_data_spec(data) matches Some((code, text, md5, mods)) && {
            let st = a.sessions@[me].stats;
            let s = b.sessions@[me];
            &&& action_code(st.action) == code
            &&& st.action_text@ == lossy_utf8(text)
            &&& st.action_md5@ == lossy_utf8(md5)
            &&& st.action_mods == mods
            &&& forall|i: int| 0 <= i < b.sessions@.len() ==> (#[trigger] a.sessions@[i]).queue@
                == if b.sessions@[i].is_player() {
                b.sessions@[i].queue@ + frame(USER_PANEL, user_panel_payload(s.id, s.username@))
            } else {
                b.sessions@[i].queue@
            }
        }))
}

/// What `Server::send_public_message` does.
pub open spec fn send_public_message_post(b: Server, a: Server, me: int, data: Seq<u8>, r: Result<(), &'static str>) -> bool {
    &&& (stable(b.sessions@, a.sessions@))
    &&& (a.channels@ == b.channels@)
    &&& (a.matches@ == b.matches@)
    &&& (a.lobby@ == b.lobby@)
    &&& (r is Ok <==> public_ok(b, me, data))
    &&& (r is Err ==> a.sessions@ == b.sessions@)
    &&& (r is Ok ==> quiet(b.sessions@, a.sessions@) && {
            let s = b.sessions@[me];
            let n = public_target(s, data)->Some_0;
            delivered(
                b.sessions@,
                a.sessions@,
                members_named(b.channels@, n),
                frame(SEND_MESSAGE, message_payload(s.username@, s.id, display_name_of(n), lossy_utf8(message_spec(data)->Some_0.0))),
                Some(s.id),
            )
        })
}

/// What `Server::send_private_message` does.
pub open spec fn send_private_message_post(b: Server, a: Server, me: int, data: Seq<u8>, r: Result<(), &'static str>) -> bool {
    &&& (stable(b.sessions@, a.sessions@))
    &&& (a.channels@ == b.channels@)
    &&& (a.matches@ == b.matches@)
    &&& (r is Err ==> a.sessions@ == b.sessions@)
    &&& (a.lobby@ == b.lobby@)
    &&& (r is Ok <==> (message_spec(data) is Some && exists|k: int| 0 <= k < b.sessions@.len()
            && (#[trigger] b.sessions@[k]).username@ == lossy_utf8(message_spec(data)->Some_0.1)))
    &&& (r is Ok ==> quiet(b.sessions@, a.sessions@))
    &&& (r is Ok ==> message_spec(data) is Some && exists|k: int|
            #![trigger b.sessions@[k]]
            0 <= k < b.sessions@.len()
            && b.sessions@[k].username@ == lossy_utf8(message_spec(data)->Some_0.1)
            && delivered(
                b.sessions@,
                a.sessions@,
                seq![b.sessions@[k].id],
                frame(SEND_MESSAGE, message_payload(
                    b.sessions@[me].username@,
                    b.sessions@[me].id,
                    lossy_utf8(message_spec(data)->Some_0.1),
                    lossy_utf8(message_spec(data)->Some_0.0),
                )),
                None,
            ))
}

/// What `Server::user_stats_request` does.
pub open spec fn user_stats_request_post(b: Server, a: Server, me: int, data: Seq<u8>, r: Result<(), &'static str>) -> bool {
    &&& (stable(b.sessions@, a.sessions@))
    &&& (a.channels@ == b.channels@)
    &&& (a.matches@ == b.matches@)
    &&& (r is Ok <==> spec_i32s(data) is Some)
    &&& (r is Err ==> a.sessions@ == b.sessions@)
    &&& (r is Ok ==> delivered(
            b.sessions@,
            a.sessions@,
            seq![b.sessions@[me].id],
            listed_stats(b.sessions@, spec_i32s(data)->Some_0.0),
            None,
        ))
}

/// What `Server::user_panel_request` does.
pub open spec fn user_panel_request_post(b: Server, a: Server, me: int, data: Seq<u8>, r: Result<(), &'static str>) -> bool {
    &&& (stable(b.sessions@, a.sessions@))
    &&& (a.channels@ == b.channels@)
    &&& (a.matches@ == b.matches@)
    &&& (r is Ok <==> spec_i32s(data) is Some)
    &&& (r is Err ==> a.sessions@ == b.sessions@)
    &&& (r is Ok ==> delivered(
            b.sessions@,
            a.sessions@,
            seq![b.sessions@[me].id],
            listed_panels(b.sessions@, spec_i32s(data)->Some_0.0),
            None,
        ))
}

/// What `Server::status_update` does.
pub open spec fn status_update_post(b: Server, a: Server, me: int) -> bool {
    &&& (stable(b.sessions@, a.sessions@))
    &&& (a.channels@ == b.channels@)
    &&& (a.matches@ == b.matches@)
    &&& (delivered(
            b.sessions@,
            a.sessions@,
            seq![b.sessions@[me].id],
            frame(USER_STATS, user_stats_payload(b.sessions@[me].id, &b.sessions@[me].stats)),
            None,
        ))
}

/// What `Server::join_lobby` does.
pub open spec fn join_lobby_post(b: Server, a: Server, me: int, r: Result<(), &'static str>) -> bool {
    &&& (stable(b.sessions@, a.sessions@))
    &&& (a.channels@ == b.channels@)
    &&& (a.matches@ == b.matches@)
    &&& (b.lobby@.contains(b.sessions@[me].id) <==> r is Err)
    &&& (r is Ok ==> a.lobby@ == b.lobby@.push(b.sessions@[me].id))
    &&& (r is Err ==> a.sessions@ == b.sessions@)
    &&& (r is Ok ==> delivered(
            b.sessions@,
            a.sessions@,
            seq![b.sessions@[me].id],
            match_listing(b.matches@),
            None,
        ))
}

/// What `Server::part_lobby` does.
pub open spec fn part_lobby_post(b: Server, a: Server, me: int, r: Result<(), &'static str>) -> bool {
    &&& (a.sessions@ == b.sessions@)
    &&& (a.channels@ == b.channels@)
    &&& (a.matches@ == b.matches@)
    &&& (b.lobby@.contains(b.sessions@[me].id) <==> r is Ok)
    &&& (!a.lobby@.contains(b.sessions@[me].id))
}

/// What `Server::channel_join` does.
pub open spec fn channel_join_post(b: Server, a: Server, me: int, data: Seq<u8>, r: Result<(), &'static str>) -> bool {
    &&& (stable(b.sessions@, a.sessions@))
    &&& (a.matches@ == b.matches@)
    &&& (a.channels@.len() == b.channels@.len())
    &&& (r is Err ==> a.channels@ == b.channels@)
    &&& (r is Ok ==> exists|ci: int| 0 <= ci < b.channels@.len() && {
            let id = b.sessions@[me].id;
            &&& spec_str(data) matches Some((sb, _)) && (#[trigger] b.channels@[ci]).name@ == lossy_utf8(sb)
            &&& !b.channels@[ci].members@.contains(id)
            &&& a.channels@[ci].members@ == b.channels@[ci].members@.push(id)
            &&& forall|j: int| 0 <= j < b.channels@.len() && j != ci ==> a.channels@[j] == b.channels@[j]
        })
    &&& (a.lobby@ == b.lobby@)
    &&& (r is Ok <==> (spec_str(data) is Some && has_channel(b.channels@, lossy_utf8(spec_str(data)->Some_0.0))
            && !members_named(b.channels@, lossy_utf8(spec_str(data)->Some_0.0)).contains(b.sessions@[me].id)))
    &&& (r is Err ==> a.sessions@ == b.sessions@)
    &&& (r is Ok ==> a.sessions@[me].channels@.len() == b.sessions@[me].channels@.len() + 1
            && a.sessions@[me].channels@.last()@ == lossy_utf8(spec_str(data)->Some_0.0))
    &&& (r is Ok ==> delivered(b.sessions@, a.sessions@, seq![b.sessions@[me].id],
            frame(CHANNEL_JOIN_SUCCESS, wire_str(display_name_of(lossy_utf8(spec_str(data)->Some_0.0)))), None))
}

/// What `Server::channel_part` does.
pub open spec fn channel_part_post(b: Server, a: Server, me: int, data: Seq<u8>, r: Result<(), &'static str>) -> bool {
    &&& (stable(b.sessions@, a.sessions@))
    &&& (a.matches@ == b.matches@)
    &&& (a.channels@.len() == b.channels@.len())
    &&& (r is Err ==> a.channels@ == b.channels@)
    &&& (r is Ok ==> exists|ci: int| 0 <= ci < b.channels@.len() && {
            let id = b.sessions@[me].id;
            &&& spec_str(data) matches Some((sb, _)) && (#[trigger] b.channels@[ci]).name@ == lossy_utf8(sb)
            &&& b.channels@[ci].members@.contains(id)
            &&& !a.channels@[ci].members@.contains(id)
            &&& a.channels@[ci].members@.len() == b.channels@[ci].members@.len() - 1
            &&& forall|j: int| 0 <= j < b.channels@.len() && j != ci ==> a.channels@[j] == b.channels@[j]
        })
    &&& (a.lobby@ == b.lobby@)
    &&& (r is Ok <==> (spec_str(data) is Some && has_channel(b.channels@, lossy_utf8(spec_str(data)->Some_0.0))
            && members_named(b.channels@, lossy_utf8(spec_str(data)->Some_0.0)).contains(b.sessions@[me].id)))
    &&& (r is Err ==> a.sessions@ == b.sessions@)
    &&& (r is Ok ==> delivered(b.sessions@, a.sessions@, seq![b.sessions@[me].id],
            frame(CHANNEL_KICKED, wire_str(display_name_of(lossy_utf8(spec_str(data)->Some_0.0)))), None))
    &&& (r is Ok ==> {
        let n = lossy_utf8(spec_str(data)->Some_0.0);
        let had = exists|k: int| 0 <= k < b.sessions@[me].channels@.len() && (#[trigger] b.sessions@[me].channels@[k])@ == n;
        &&& had ==> a.sessions@[me].channels@.len() == b.sessions@[me].channels@.len() - 1
        &&& !had ==> a.sessions@[me].channels@ == b.sessions@[me].channels@
    })
}

/// What `Server::create_match` does.
pub open spec fn create_match_post(b: Server, a: Server, me: int, data: Seq<u8>, r: Result<(), &'static str>) -> bool {
    &&& (stable(b.sessions@, a.sessions@))
    &&& (r is Err ==> a.matches@ == b.matches@)
    &&& (r is Ok ==> {
            let m = a.matches@.last();
            let host = b.sessions@[me].id;
            &&& a.matches@.len() == b.matches@.len() + 1
            &&& a.matches@.take(b.matches@.len() as int) == b.matches@
            &&& m.host_id == host
            &&& m.slots@[0].status == SlotStatus::NotReady
            &&& m.slots@[0].occupant == Some(host)
            &&& exists|ci: int| 0 <= ci < a.channels@.len() && {
                let c = #[trigger] a.channels@[ci];
                &&& c.name@ == match_channel_spec(m.id)
                &&& !c.public
                &&& c.members@ == seq![host]
            }
            &&& m.name@ == trimmed(lossy_utf8(settings_spec(data)->Some_0.head.name))
            &&& m.password@ == lossy_utf8(settings_spec(data)->Some_0.head.password)
            &&& m.beatmap_name@ == lossy_utf8(settings_spec(data)->Some_0.head.beatmap_name)
            &&& m.beatmap_id == settings_spec(data)->Some_0.head.beatmap_id
            &&& m.beatmap_md5@ == lossy_utf8(settings_spec(data)->Some_0.head.beatmap_md5)
            &&& a.sessions@[me].match_id == Some(m.id)
        })
    &&& (r is Ok <==> (b.sessions@[me].is_player() && settings_spec(data) is Some
            && b.matches@.len() <= u16::MAX))
    &&& (r is Err ==> a.sessions@ == b.sessions@ && a.channels@ == b.channels@
            && a.lobby@ == b.lobby@)
    &&& (r is Ok ==> match_announced(b.sessions@, a.sessions@, b.lobby@, me, a.matches@.last()))
}

/// What one non-logout envelope does to the state, by its handler.
pub open spec fn handled(id: ClientId, b: Server, a: Server, me: int, data: Seq<u8>, r: Result<(), &'static str>) -> bool {
    match id {
        ClientId::ChangeAction => change_action_post(b, a, me, data, r),
        ClientId::SendPublicMessage => send_public_message_post(b, a, me, data, r),
        ClientId::SendPrivateMessage => send_private_message_post(b, a, me, data, r),
        ClientId::RequestStatusUpdate => status_update_post(b, a, me) && r is Ok,
        ClientId::UserStatsRequest => user_stats_request_post(b, a, me, data, r),
        ClientId::UserPanelRequest => user_panel_request_post(b, a, me, data, r),
        ClientId::JoinLobby => join_lobby_post(b, a, me, r),
        ClientId::PartLobby => part_lobby_post(b, a, me, r),
        ClientId::ChannelJoin => channel_join_post(b, a, me, data, r),
        ClientId::ChannelPart => channel_part_post(b, a, me, data, r),
        ClientId::CreateMatch => create_match_post(b, a, me, data, r),
        ClientId::MatchChangeSettings => change_settings_post(b, a, me, data, r),
        ClientId::Pong => a == b && r is Ok,
        ClientId::Unknown(_) => a == b && r is Ok,
        ClientId::Logout => false,
    }
}

/// The notifications of the failed envelopes, in order.
pub open spec fn notes(res: Seq<Result<(), &'static str>>) -> Seq<u8>
    decreases res.len(),
{
    if res.len() == 0 {
        Seq::empty()
    } else {
        notes(res.drop_last()) + match res.last() {
            Err(m) => frame(packets::NOTIFICATION, wire_str(m@)),
            Ok(_) => Seq::empty(),
        }
    }
}

/// The states `t` are the first envelopes of `fs` handled in order: each
/// step from `t[i]` to `t[i + 1]` is envelope `i`'s handler, with result
/// `res[i]`; none of them is a logout.
pub open spec fn replay(t: Seq<Server>, res: Seq<Result<(), &'static str>>, fs: Seq<(ClientId, Seq<u8>)>, me: int) -> bool {
    &&& t.len() == res.len() + 1
    &&& res.len() <= fs.len()
    &&& forall|i: int| 0 <= i < res.len() ==> fs[i].0 != ClientId::Logout
        && handled(fs[i].0, t[i], t[i + 1], me, fs[i].1, #[trigger] res[i])
}

/// The position of the session holding `token`.
pub open spec fn token_index(s: Seq<Session>, token: Seq<char>) -> int {
    choose|i: int| 0 <= i < s.len() && (#[trigger] s[i]).token@ == token
}

pub proof fn lemma_token_index(s: Seq<Session>, i: int, token: Seq<char>)
    requires
        0 <= i < s.len(),
        s[i].token@ == token,
        crate::session::tokens_unique(s),
    ensures
        token_index(s, token) == i,
{
    let c = token_index(s, token);
    assert(s[i].token@ == token);
    if c != i {
        if c < i {
            assert(s[c].token@ != s[i].token@);
        } else {
            assert(s[i].token@ != s[c].token@);
        }
    }
}

/// How a request ends, from the state `last` after the envelopes replayed
/// with results `res`: at a logout, the session is logged out and the
/// answer is the notifications and the queue it had; else every envelope
/// was handled, the queue is drained, and the answer is the notifications
/// followed by that queue.
pub open spec fn batch_end(last: Server, fin: Server, res: Seq<Result<(), &'static str>>, fs: Seq<(ClientId, Seq<u8>)>, me: int, token: Seq<char>, o: Outcome) -> bool {
    let s = last.sessions@[me];
    &&& o.response@ == notes(res) + s.queue@
    &&& if o.logged_out {
        &&& res.len() < fs.len()
        &&& fs[res.len() as int].0 == ClientId::Logout
        &&& logged_out(&last, &fin, s.id, token)
    } else {
        &&& res.len() == fs.len()
        &&& fin.channels@ == last.channels@
        &&& fin.matches@ == last.matches@
        &&& fin.lobby@ == last.lobby@
        &&& fin.sessions@.len() == last.sessions@.len()
        &&& forall|i: int| 0 <= i < last.sessions@.len() && i != me ==> #[trigger] fin.sessions@[i] == last.sessions@[i]
        &&& fin.sessions@[me].same_but_queue(s)
        &&& fin.sessions@[me].queue@.len() == 0
    }
}

/// The queues after a match is announced: the host got the match, the
/// transfer of host and possibly the join of its channel; every other
/// player in the lobby got the new match once, and no one else anything.
pub open spec fn match_announced(b: Seq<Session>, a: Seq<Session>, lobby: Seq<i32>, me: int, m: crate::matches::Match) -> bool {
    &&& a.len() == b.len()
    &&& forall|k: int| 0 <= k < b.len() && k != me ==> #[trigger] a[k].queue@
        == b[k].queue@ + (if b[k].is_player() && lobby.contains(b[k].id) {
            frame(NEW_MATCH, match_data_spec(&m))
        } else {
            Seq::empty()
        })
    &&& b[me].is_player() ==> {
        let start = b[me].queue@ + frame(packets::MATCH_JOIN_SUCCESS, match_data_spec(&m))
            + frame(packets::MATCH_TRANSFER_HOST, Seq::empty());
        ||| a[me].queue@ == start
        ||| a[me].queue@ == start + frame(CHANNEL_JOIN_SUCCESS, wire_str(display_name_of(match_channel_spec(m.id))))
    }
}

/// The name the bot chats under.
pub const BOT_NAME: &'static str = "kenshichi";

/// Each session keeps its place, id, token, name and kind.
pub open spec fn stable(before: Seq<Session>, after: Seq<Session>) -> bool {
    &&& after.len() == before.len()
    &&& forall|i: int| 0 <= i < before.len() ==> {
        &&& (#[trigger] after[i]).id == before[i].id
        &&& after[i].token@ == before[i].token@
        &&& after[i].username@ == before[i].username@
        &&& after[i].kind == before[i].kind
    }
}

pub proof fn lemma_stable_wf(before: Seq<Session>, after: Seq<Session>)
    requires
        stable(before, after),
        crate::session::ids_unique(before),
        crate::session::tokens_unique(before),
    ensures
        crate::session::ids_unique(after),
        crate::session::tokens_unique(after),
{
    assert forall|a: int, b: int| 0 <= a < b < after.len() implies after[a].id != after[b].id
        && after[a].token@ != after[b].token@ by {
        assert(before[a].id != before[b].id);
        assert(before[a].token@ != before[b].token@);
    }
}

fn decoded<T>(r: Result<T, DecodeError>) -> (out: Result<T, &'static str>)
    ensures
        r is Ok <==> out is Ok,
        r matches Ok(v) ==> out == Ok::<T, &'static str>(v),
{
    match r {
        Ok(v) => Ok(v),
        Err(_) => Err("Couldn't decode the packet"),
    }
}

/// The fields of an action change.
fn decode_action(data: &[u8]) -> (r: Result<(u8, String, String, u32), &'static str>)
    ensures
        r is Ok <==> action_data_spec(data@) is Some,
        r matches Ok((code, text, md5, mods)) ==> action_data_spec(data@) matches Some((c, t, m, x))
            && code == c && text@ == lossy_utf8(t) && md5@ == lossy_utf8(m) && mods == x,
{
    let mut c = Cursor::new(data);
    let code = decoded(c.read_u8())?;
    let text = decoded(c.read_string())?;
    let md5 = decoded(c.read_string())?;
    let mods = decoded(c.read_u32())?;
    Ok((code, text, md5, mods))
}

/// A chat message: an unused string, then the text and the addressee as
/// raw bytes.
pub open spec fn message_spec(b: Seq<u8>) -> Option<(Seq<u8>, Seq<u8>)> {
    match p_str(b) {
        None => None,
        Some((_, b)) => match p_str(b) {
            None => None,
            Some((content, b)) => match p_str(b) {
                None => None,
                Some((to, _)) => Some((content, to)),
            },
        },
    }
}

/// A chat message payload: an unused string, the text and the addressee.
fn decode_message(data: &[u8]) -> (r: Result<(String, String), &'static str>)
    ensures
        r is Ok <==> message_spec(data@) is Some,
        r matches Ok((content, to)) ==> message_spec(data@) matches Some((c, t))
            && content@ == lossy_utf8(c) && to@ == lossy_utf8(t),
{
    let mut c = Cursor::new(data);
    let _ = decoded(c.read_string())?;
    let content = decoded(c.read_string())?;
    let to = decoded(c.read_string())?;
    Ok((content, to))
}

pub fn contains_id(v: &Vec<i32>, x: i32) -> (r: bool)
    ensures
        r == v@.contains(x),
{
    let mut i: usize = 0;
    while i < v.len()
        invariant
            i <= v@.len(),
            forall|j: int| 0 <= j < i ==> v@[j] != x,
        decreases v@.len() - i,
    {
        if v[i] == x {
            return true;
        }
        i += 1;
    }
    false
}

/// The ids of `v`, each once.
fn unique_ids(v: &Vec<i32>) -> (r: Vec<i32>)
    ensures
        r@.no_duplicates(),
        forall|x: i32| r@.contains(x) <==> v@.contains(x),
{
    let mut out: Vec<i32> = Vec::new();
    let mut i: usize = 0;
    while i < v.len()
        invariant
            i <= v@.len(),
            out@.no_duplicates(),
            forall|x: i32| out@.contains(x) <==> v@.take(i as int).contains(x),
        decreases v@.len() - i,
    {
        let x = v[i];
        let ghost o0 = out@;
        if !contains_id(&out, x) {
            out.push(x);
        }
        proof {
            let t0 = v@.take(i as int);
            let t1 = v@.take(i + 1);
            assert(t1 =~= t0.push(x));
            assert forall|y: i32| out@.contains(y) <==> t1.contains(y) by {
                if out@.contains(y) {
                    let q = choose|q: int| 0 <= q < out@.len() && out@[q] == y;
                    if q < o0.len() {
                        assert(o0[q] == y);
                        assert(o0.contains(y));
                        assert(t0.contains(y));
                        let p = choose|p: int| 0 <= p < t0.len() && t0[p] == y;
                        assert(t1[p] == y);
                    } else {
                        assert(t1[t0.len() as int] == y);
                    }
                }
                if t1.contains(y) {
                    let q = choose|q: int| 0 <= q < t1.len() && t1[q] == y;
                    if q < t0.len() {
                        assert(t0[q] == y);
                        assert(t0.contains(y));
                        assert(o0.contains(y));
                        let p = choose|p: int| 0 <= p < o0.len() && o0[p] == y;
                        assert(out@[p] == y);
                    } else if o0.contains(x) {
                        let p = choose|p: int| 0 <= p < o0.len() && o0[p] == x;
                        assert(out@[p] == y);
                    } else {
                        assert(out@[o0.len() as int] == y);
                    }
                }
            }
            if !o0.contains(x) {
                assert forall|a: int, b: int| 0 <= a < b < out@.len() implies out@[a] != out@[b] by {
                    if b == o0.len() {
                        assert(o0[a] == out@[a]);
                    }
                }
            }
        }
        i += 1;
    }
    assert(v@.take(i as int) =~= v@);
    out
}

fn copy_ids(v: &Vec<i32>) -> (r: Vec<i32>)
    ensures
        r@ == v@,
{
    let mut out: Vec<i32> = Vec::new();
    let mut i: usize = 0;
    while i < v.len()
        invariant
            i <= v@.len(),
            out@ == v@.take(i as int),
        decreases v@.len() - i,
    {
        out.push(v[i]);
        i += 1;
        assert(out@ =~= v@.take(i as int));
    }
    assert(v@.take(i as int) =~= v@);
    out
}

/// Relies on `uuid::Uuid::new_v4`, written hyphenated: a random token of
/// 32 lower-case hexadecimal digits in groups of 8, 4, 4, 4 and 12, joined
/// by hyphens.
#[verifier::external_body]
fn fresh_token() -> (r: String)
    ensures
        r@.len() == 36,
        forall|i: int| 0 <= i < 36 ==> if i == 8 || i == 13 || i == 18 || i == 23 {
            #[trigger] r@[i] == '-'
        } else {
            ('0' <= r@[i] && r@[i] <= '9') || ('a' <= r@[i] && r@[i] <= 'f')
        },
{
    uuid::Uuid::new_v4().hyphenated().to_string()
}

/// The answer to a refused login: the sentinel user id, then the reason.
pub fn login_refused(reason: &str) -> (r: Vec<u8>)
    ensures
        r@ == frame(USER_ID, wire_i32(packets::LOGIN_FAILED_ID)) + frame(
            packets::NOTIFICATION,
            crate::codec::wire_str(reason@),
        ),
{
    let mut r = packets::login_failed();
    r.append(&mut packets::notification(reason));
    r
}

/// What a request produced.
pub struct Outcome {
    /// Notifications for failed packets, then the drained queue.
    pub response: Vec<u8>,
    /// A keep-alive signal arrived; the liveness watcher should hear of it.
    pub keep_alive: bool,
    /// The session logged out; no later request can name it.
    pub logged_out: bool,
}

/// The whole shared state.
pub struct Server {
    pub sessions: SessionList,
    pub channels: ChannelList,
    pub matches: MatchList,
    /// User ids of the sessions browsing the match list.
    pub lobby: Vec<i32>,
}

impl Server {
    pub open spec fn wf(&self) -> bool {
        &&& self.sessions.wf()
        &&& self.channels.wf()
        &&& self.matches.wf()
    }

    /// A server with the two public channels, and the bot, holding
    /// `bot_token`, a member of both.
    pub fn new(bot_token: String) -> (r: Server)
        ensures
            r.wf(),
            r.sessions@.len() == 1,
            r.sessions@[0].id == BOT_ID,
            r.sessions@[0].kind == SessionKind::Bot,
            r.sessions@[0].token@ == bot_token@,

            r.matches@.len() == 0,
            r.lobby@.len() == 0,
    {
        let mut sessions = SessionList::new();
        let _ = sessions.add(BOT_ID, String::from_str("kenshichi"), bot_token, SessionKind::Bot);
        let mut channels = ChannelList::new();

        let a = channels.add_channel(String::from_str("#osu"), String::from_str("General discussion"), true);
        let b = channels.add_channel(String::from_str("#lobby"), String::from_str("multi"), true);
        let _ = channels.join(a, BOT_ID);
        let _ = channels.join(b, BOT_ID);

        Server { sessions, channels, matches: MatchList::new(), lobby: Vec::new() }
    }

    fn panels(&self) -> (r: Vec<u8>)
        ensures
            r@ == panels_spec(self.sessions@),
    {
        let mut out: Vec<u8> = Vec::new();
        let mut i: usize = 0;
        while i < self.sessions.len()
            invariant
                i <= self.sessions@.len(),
                out@ == panels_spec(self.sessions@.take(i as int)),
            decreases self.sessions@.len() - i,
        {
            let s = self.sessions.at(i);
            let mut p = user_panel(s.id, s.username.as_str());
            out.append(&mut p);
            proof {
                assert(self.sessions@.take(i + 1).drop_last() =~= self.sessions@.take(i as int));
            }
            i += 1;
        }
        assert(self.sessions@.take(i as int) =~= self.sessions@);
        out
    }

    fn public_infos(&self) -> (r: Vec<u8>)
        ensures
            r@ == public_infos_spec(self.channels@),
    {
        let mut out: Vec<u8> = Vec::new();
        let mut i: usize = 0;
        while i < self.channels.len()
            invariant
                i <= self.channels@.len(),
                out@ == public_infos_spec(self.channels@.take(i as int)),
            decreases self.channels@.len() - i,
        {
            let c = self.channels.at(i);
            if c.public {
                let mut p = channel_info(c);
                out.append(&mut p);
            }
            proof {
                assert(self.channels@.take(i + 1).drop_last() =~= self.channels@.take(i as int));
            }
            i += 1;
            assert(out@ =~= public_infos_spec(self.channels@.take(i as int)));
        }
        assert(self.channels@.take(i as int) =~= self.channels@);
        out
    }

    /// Registers a player with user id `id` under `token` and returns the
    /// login answer. Fails, changing nothing, when a session with that id or
    /// that token exists.
    pub fn login(&mut self, id: i32, username: String, token: String) -> (r: Result<Vec<u8>, LoginError>)
        requires
            old(self).wf(),
        ensures
            final(self).wf(),
            final(self).channels@ == old(self).channels@,
            final(self).matches@ == old(self).matches@,
            final(self).lobby@ == old(self).lobby@,
            old(self).sessions.spec_has_id(id) ==> r == Err::<Vec<u8>, LoginError>(LoginError::DuplicateSession)
                && final(self).sessions@ == old(self).sessions@,
            !old(self).sessions.spec_has_id(id) && old(self).sessions.has_token(token@) ==> r == Err::<Vec<u8>, LoginError>(LoginError::DuplicateToken)
                && final(self).sessions@ == old(self).sessions@,
            !old(self).sessions.spec_has_id(id) && !old(self).sessions.has_token(token@) ==> r is Ok && {
                let s = final(self).sessions@;
                let me = s.last();
                &&& s.len() == old(self).sessions@.len() + 1
                &&& s.take(old(self).sessions@.len() as int) == old(self).sessions@
                &&& me.id == id && me.token@ == token@ && me.username@ == username@
                &&& me.kind == SessionKind::Player
                &&& me.queue@.len() == 0 && me.channels@.len() == 0 && me.match_id is None
                &&& r->Ok_0@ == login_response(me, s, old(self).channels@)
            },
    {
        let ghost u = username@;
        let ghost t = token@;
        let i = match self.sessions.add(id, username, token, SessionKind::Player) {
            Ok(i) => i,
            Err(e) => {
                return Err(e);
            },
        };
        assert(!old(self).sessions.spec_has_id(id));
        assert(!old(self).sessions.has_token(t));
        assert(self.sessions@.len() == old(self).sessions@.len() + 1);
        assert(i as int == old(self).sessions@.len());
        assert(i as int == self.sessions@.len() - 1);
        let mut out = silence_end(0);
        out.append(&mut protocol_ver(PROTOCOL));
        out.append(&mut user_id(id));
        out.append(&mut user_rank(DEFAULT_RANK));
        let none: Vec<i32> = Vec::new();
        out.append(&mut friend_list(none.as_slice()));
        let me = self.sessions.at(i);
        out.append(&mut user_panel(me.id, me.username.as_str()));
        out.append(&mut user_stats(me.id, &me.stats));
        let ids = self.sessions.ids();
        proof {
            assert(ids@ =~= ids_of(self.sessions@));
            assert(none@ =~= Seq::<i32>::empty());
        }
        out.append(&mut online_users(ids.as_slice()));
        out.append(&mut self.panels());
        out.append(&mut channel_info_end());
        out.append(&mut self.public_infos());
        proof {
            assert(self.sessions@.last() == self.sessions@[i as int]);
            assert(out@ =~= login_response(self.sessions@.last(), self.sessions@, self.channels@));
        }
        Ok(out)
    }

    /// Removes the session holding `token`: from the registry, from every
    /// channel and match slot and from the lobby; every remaining session is
    /// told. Returns the removed session; fails, changing nothing, when no
    /// session holds the token.
    pub fn logout(&mut self, token: &String) -> (r: Result<Session, StateError>)
        requires
            old(self).wf(),
        ensures
            final(self).wf(),
            r is Err <==> !old(self).sessions.has_token(token@),
            r is Err ==> r == Err::<Session, StateError>(StateError::NoSuchSession) && final(self).sessions@ == old(self).sessions@
                && final(self).channels@ == old(self).channels@ && final(self).matches@ == old(self).matches@
                && final(self).lobby@ == old(self).lobby@,
            r matches Ok(s) ==> s.token@ == token@ && logged_out(old(self), final(self), s.id, token@),
            r matches Ok(s) ==> forall|i: int| 0 <= i < old(self).sessions@.len() && (#[trigger] old(self).sessions@[i]).token@ == token@
                ==> old(self).sessions@[i] == s,
    {
        let s = match self.sessions.remove(token) {
            Some(s) => s,
            None => {
                return Err(StateError::NoSuchSession);
            },
        };
        let id = s.id;
        let ghost mid = self.sessions@;
        proof {
            let i0 = choose|i: int| 0 <= i < old(self).sessions@.len() && old(self).sessions@[i] == s && mid == old(self).sessions@.remove(i);
            assert forall|i: int| 0 <= i < old(self).sessions@.len() && (#[trigger] old(self).sessions@[i]).token@ == token@
                implies old(self).sessions@[i] == s by {
                if i != i0 {
                    if i < i0 {
                        assert(old(self).sessions@[i].token@ != old(self).sessions@[i0].token@);
                    } else {
                        assert(old(self).sessions@[i0].token@ != old(self).sessions@[i].token@);
                    }
                }
            }
        }
        proof {
            assert(!self.sessions.spec_has_id(id)) by {
                if self.sessions.spec_has_id(id) {
                    let k = choose|k: int| 0 <= k < mid.len() && mid[k].id == id;
                    let i0 = choose|i: int| 0 <= i < old(self).sessions@.len() && old(self).sessions@[i] == s && mid == old(self).sessions@.remove(i);
                    if k < i0 {
                        assert(old(self).sessions@[k].id != old(self).sessions@[i0].id);
                    } else {
                        assert(old(self).sessions@[k + 1].id != old(self).sessions@[i0].id);
                    }
                }
            }
        }
        self.channels.part_all(id);
        self.matches.release_all(id);
        let mut lobby: Vec<i32> = Vec::new();
        let mut i: usize = 0;
        while i < self.lobby.len()
            invariant
                i <= self.lobby@.len(),
                forall|j: int| 0 <= j < lobby@.len() ==> lobby@[j] != id,
            decreases self.lobby@.len() - i,
        {
            if self.lobby[i] != id {
                lobby.push(self.lobby[i]);
            }
            i += 1;
        }
        self.lobby = lobby;
        let packet = crate::packets::logout(id);
        self.sessions.enqueue_all(packet.as_slice());
        proof {
            assert forall|i: int| 0 <= i < self.sessions@.len() implies (#[trigger] self.sessions@[i]).token@ != token@
                && self.sessions@[i].id != id by {
                assert(self.sessions@[i].same_but_queue(mid[i]));
            }
            assert(sessions_gone(old(self).sessions@, self.sessions@, id, token@));
        }
        Ok(s)
    }

    /// Appends `bytes` to the queue of the session with user id `id`, if
    /// there is one.
    pub fn send_to(&mut self, id: i32, bytes: &[u8])
        requires
            old(self).wf(),
        ensures
            final(self).wf(),
            stable(old(self).sessions@, final(self).sessions@),
            quiet(old(self).sessions@, final(self).sessions@),
            delivered(old(self).sessions@, final(self).sessions@, seq![id], bytes@, None),
            final(self).channels@ == old(self).channels@,
            final(self).matches@ == old(self).matches@,
            final(self).lobby@ == old(self).lobby@,
    {
        match self.sessions.find_id(id) {
            Some(i) => {
                self.sessions.enqueue_at(i, bytes);
                proof {
                    assert forall|k: int| 0 <= k < old(self).sessions@.len() implies (#[trigger] self.sessions@[k]).queue@
                        == if seq![id].contains(old(self).sessions@[k].id) && None::<i32> != Some(old(self).sessions@[k].id)
                            && old(self).sessions@[k].is_player() {
                            old(self).sessions@[k].queue@ + bytes@
                        } else {
                            old(self).sessions@[k].queue@
                        } by {
                        if k == i {
                            assert(seq![id][0] == id);
                        } else {
                            assert(old(self).sessions@[k].id != id) by {
                                if k < i {
                                    assert(old(self).sessions@[k].id != old(self).sessions@[i as int].id);
                                } else {
                                    assert(old(self).sessions@[i as int].id != old(self).sessions@[k].id);
                                }
                            }
                            assert(!seq![id].contains(old(self).sessions@[k].id)) by {
                                if seq![id].contains(old(self).sessions@[k].id) {
                                    let q = choose|q: int| 0 <= q < 1 && seq![id][q] == old(self).sessions@[k].id;
                                }
                            }
                        }
                    }
                }
            },
            None => {
                proof {
                    assert forall|k: int| 0 <= k < old(self).sessions@.len() implies !seq![id].contains(
                        #[trigger] old(self).sessions@[k].id) by {
                        if seq![id].contains(old(self).sessions@[k].id) {
                            let q = choose|q: int| 0 <= q < 1 && seq![id][q] == old(self).sessions@[k].id;
                            assert(old(self).sessions@[k].id == id);
                        }
                    }
                }
            },
        }
    }

    /// Appends `bytes` to the queues of the sessions with the user ids in
    /// `ids`, except `exclude`.
    pub fn send_to_all(&mut self, ids: &Vec<i32>, bytes: &[u8], exclude: Option<i32>)
        requires
            old(self).wf(),
        ensures
            final(self).wf(),
            stable(old(self).sessions@, final(self).sessions@),
            quiet(old(self).sessions@, final(self).sessions@),
            ids@.no_duplicates() ==> delivered(old(self).sessions@, final(self).sessions@, ids@, bytes@, exclude),
            final(self).channels@ == old(self).channels@,
            final(self).matches@ == old(self).matches@,
            final(self).lobby@ == old(self).lobby@,
    {
        let mut i: usize = 0;
        proof {
            assert(ids@.take(0) =~= Seq::<i32>::empty());
        }
        while i < ids.len()
            invariant
                self.wf(),
                i <= ids@.len(),
                stable(old(self).sessions@, self.sessions@),
                quiet(old(self).sessions@, self.sessions@),
                ids@.no_duplicates() ==> delivered(old(self).sessions@, self.sessions@, ids@.take(i as int), bytes@, exclude),
                self.channels@ == old(self).channels@,
                self.matches@ == old(self).matches@,
                self.lobby@ == old(self).lobby@,
            decreases ids@.len() - i,
        {
            let ghost mid = self.sessions@;
            let sent = Some(ids[i]) != exclude;
            if sent {
                self.send_to(ids[i], bytes);
            }
            assert(sent ==> delivered(mid, self.sessions@, seq![ids@[i as int]], bytes@, None));
            assert(!sent ==> self.sessions@ == mid);
            proof {
                let t = ids@.take(i + 1);
                assert(t =~= ids@.take(i as int).push(ids@[i as int]));
                if ids@.no_duplicates() {
                    assert forall|k: int| 0 <= k < old(self).sessions@.len() implies (#[trigger] self.sessions@[k]).queue@
                        == if t.contains(old(self).sessions@[k].id) && exclude != Some(old(self).sessions@[k].id)
                            && old(self).sessions@[k].is_player() {
                            old(self).sessions@[k].queue@ + bytes@
                        } else {
                            old(self).sessions@[k].queue@
                        } by {
                        let sid = old(self).sessions@[k].id;
                        assert(mid[k].id == sid);
                        assert(mid[k].kind == old(self).sessions@[k].kind);
                        assert(mid[k].is_player() == old(self).sessions@[k].is_player());
                        assert(mid[k].queue@ == if ids@.take(i as int).contains(sid) && exclude != Some(sid)
                            && old(self).sessions@[k].is_player() {
                            old(self).sessions@[k].queue@ + bytes@
                        } else {
                            old(self).sessions@[k].queue@
                        });
                        assert(sent ==> self.sessions@[k].queue@ == if seq![ids@[i as int]].contains(mid[k].id)
                            && None::<i32> != Some(mid[k].id) && mid[k].is_player() {
                            mid[k].queue@ + bytes@
                        } else {
                            mid[k].queue@
                        });
                        if sid == ids@[i as int] {
                            assert(!ids@.take(i as int).contains(sid)) by {
                                if ids@.take(i as int).contains(sid) {
                                    let q = choose|q: int| 0 <= q < i && ids@.take(i as int)[q] == sid;
                                    assert(ids@[q] == ids@[i as int]);
                                }
                            }
                            assert(t.contains(sid)) by {
                                assert(t[i as int] == sid);
                            }
                            assert(seq![ids@[i as int]][0] == sid);
                            assert(seq![ids@[i as int]].contains(sid));
                        } else {
                            assert(t.contains(sid) == ids@.take(i as int).contains(sid)) by {
                                if t.contains(sid) {
                                    let q = choose|q: int| 0 <= q < t.len() && t[q] == sid;
                                    assert(q < i);
                                    assert(ids@.take(i as int)[q] == sid);
                                }
                                if ids@.take(i as int).contains(sid) {
                                    let q = choose|q: int| 0 <= q < i && ids@.take(i as int)[q] == sid;
                                    assert(t[q] == sid);
                                }
                            }
                            assert(!seq![ids@[i as int]].contains(sid)) by {
                                if seq![ids@[i as int]].contains(sid) {
                                    let q = choose|q: int| 0 <= q < 1 && seq![ids@[i as int]][q] == sid;
                                }
                            }
                        }
                    }
                }
            }
            i += 1;
        }
        assert(ids@.take(i as int) =~= ids@);
    }

    /// Sends `content` from the bot to every member of the channel `name`.
    fn bot_say(&mut self, name: &String, content: &str)
        requires
            old(self).wf(),
        ensures
            final(self).wf(),
            stable(old(self).sessions@, final(self).sessions@),
            quiet(old(self).sessions@, final(self).sessions@),
            delivered(
                old(self).sessions@,
                final(self).sessions@,
                members_named(old(self).channels@, name@),
                frame(SEND_MESSAGE, message_payload(BOT_NAME@, BOT_ID, display_name_of(name@), content@)),
                None,
            ),
            final(self).channels@ == old(self).channels@,
            final(self).matches@ == old(self).matches@,
            final(self).lobby@ == old(self).lobby@,
    {
        match self.channels.find(name) {
            Some(ci) => {
                let c = self.channels.at(ci);
                let packet = packets::send_message(BOT_NAME, BOT_ID, c.display_name(), content);
                let members = copy_ids(&c.members);
                proof {
                    lemma_members_named(self.channels@, ci as int);
                    assert(self.channels@[ci as int].wf());
                }
                self.send_to_all(&members, packet.as_slice(), None);
            },
            None => {
                proof {
                    assert forall|k: int| 0 <= k < old(self).sessions@.len() implies !Seq::<i32>::empty().contains(
                        #[trigger] old(self).sessions@[k].id) by {}
                }
            },
        }
    }

    /// Records what the session at `me` is doing.
    fn set_action(&mut self, me: usize, action: Action, text: String, md5: String, mods: u32)
        requires
            old(self).wf(),
            me < old(self).sessions@.len(),
        ensures
            final(self).wf(),
            stable(old(self).sessions@, final(self).sessions@),
            final(self).channels@ == old(self).channels@,
            final(self).matches@ == old(self).matches@,
            final(self).lobby@ == old(self).lobby@,
            forall|i: int| 0 <= i < old(self).sessions@.len() ==> (#[trigger] final(self).sessions@[i]).queue@
                == old(self).sessions@[i].queue@,
            final(self).sessions@[me as int].stats.action == action,
            final(self).sessions@[me as int].stats.action_text@ == text@,
            final(self).sessions@[me as int].stats.action_md5@ == md5@,
            final(self).sessions@[me as int].stats.action_mods == mods,
    {
        let ghost before = self.sessions@;
        {
            let s = self.sessions.session_mut(me);
            s.stats.action = action;
            s.stats.action_text = text;
            s.stats.action_md5 = md5;
            s.stats.action_mods = mods;
        }
        proof {
            lemma_stable_wf(before, self.sessions@);
        }
    }

    /// Handles a change of the requester's shown action, then shows its
    /// panel to everyone.
    pub fn change_action(&mut self, me: usize, data: &[u8]) -> (r: Result<(), &'static str>)
        requires
            old(self).wf(),
            me < old(self).sessions@.len(),
        ensures
            final(self).wf(),
            change_action_post(*old(self), *final(self), me as int, data@, r),
    {
        let (code, text, md5, mods) = decode_action(data)?;
        let action = match Action::from_u8(code) {
            Some(a) => a,
            None => {
                return Err("Unknown action id");
            },
        };
        if self.sessions.at(me).kind == SessionKind::Bot {
            return Err("A bot has no stats to update");
        }
        self.set_action(me, action, text, md5, mods);
        let s = self.sessions.at(me);
        let packet = packets::user_panel(s.id, s.username.as_str());
        let ghost mid = self.sessions@;
        self.sessions.enqueue_all(packet.as_slice());
        proof {
            assert forall|i: int| 0 <= i < old(self).sessions@.len() implies (#[trigger] self.sessions@[i]).queue@
                == if old(self).sessions@[i].is_player() {
                old(self).sessions@[i].queue@ + packet@
            } else {
                old(self).sessions@[i].queue@
            } by {
                assert(mid[i].queue@ == old(self).sessions@[i].queue@);
                assert(mid[i].kind == old(self).sessions@[i].kind);
                assert(self.sessions@[i].same_but_queue(mid[i]));
            }
        }
        Ok(())
    }

    /// Sends a chat message to a channel the requester is in; the sender
    /// does not get it back. `#multiplayer` names the requester's match channel.
    pub fn send_public_message(&mut self, me: usize, data: &[u8]) -> (r: Result<(), &'static str>)
        requires
            old(self).wf(),
            me < old(self).sessions@.len(),
        ensures
            final(self).wf(),
            send_public_message_post(*old(self), *final(self), me as int, data@, r),
    {
        let (content, to) = decode_message(data)?;
        proof {
            reveal_strlit("#multiplayer");
        }
        let multi = String::from_str("#multiplayer");
        assert(multi@ =~= multi_alias());
        let s = self.sessions.at(me);
        let my_id = s.id;
        let name = if to == multi {
            match s.match_id {
                Some(m) => match_channel_name(m),
                None => {
                    return Err("You aren't in a multiplayer match");
                },
            }
        } else {
            to
        };
        let ci = match self.channels.find(&name) {
            Some(ci) => ci,
            None => {
                return Err("No such channel");
            },
        };
        proof {
            lemma_members_named(self.channels@, ci as int);
        }
        let c = self.channels.at(ci);
        if !c.has_user(my_id) {
            return Err("Join the channel before sending messages to it");
        }
        let s = self.sessions.at(me);
        let packet = packets::send_message(s.username.as_str(), my_id, c.display_name(), content.as_str());
        let members = copy_ids(&c.members);
        proof {
            assert(self.channels@[ci as int].wf());
        }
        self.send_to_all(&members, packet.as_slice(), Some(my_id));

        Ok(())
    }

    /// Sends a chat message to the user named in the message.
    pub fn send_private_message(&mut self, me: usize, data: &[u8]) -> (r: Result<(), &'static str>)
        requires
            old(self).wf(),
            me < old(self).sessions@.len(),
        ensures
            final(self).wf(),
            send_private_message_post(*old(self), *final(self), me as int, data@, r),
    {
        let (content, to) = decode_message(data)?;
        let target = match self.sessions.find_username(&to) {
            Some(t) => t,
            None => {
                return Err("That user is not online");
            },
        };
        let s = self.sessions.at(me);
        let packet = packets::send_message(s.username.as_str(), s.id, to.as_str(), content.as_str());
        let tid = self.sessions.at(target).id;
        self.send_to(tid, packet.as_slice());
        assert(old(self).sessions@[target as int].username@ == to@);
        Ok(())
    }

    /// Answers with the stats of each listed user that is online.
    pub fn user_stats_request(&mut self, me: usize, data: &[u8]) -> (r: Result<(), &'static str>)
        requires
            old(self).wf(),
            me < old(self).sessions@.len(),
        ensures
            final(self).wf(),
            user_stats_request_post(*old(self), *final(self), me as int, data@, r),
    {
        let (ids, _) = decoded(decode_i32s(data))?;
        let mut out: Vec<u8> = Vec::new();
        let mut i: usize = 0;
        while i < self.sessions.len()
            invariant
                i <= self.sessions@.len(),
                out@ == listed_stats(self.sessions@.take(i as int), ids@),
            decreases self.sessions@.len() - i,
        {
            let s = self.sessions.at(i);
            if contains_id(&ids, s.id) {
                out.append(&mut packets::user_stats(s.id, &s.stats));
            }
            proof {
                assert(self.sessions@.take(i + 1).drop_last() =~= self.sessions@.take(i as int));
            }
            i += 1;
            assert(out@ =~= listed_stats(self.sessions@.take(i as int), ids@));
        }
        assert(self.sessions@.take(i as int) =~= self.sessions@);
        let my_id = self.sessions.at(me).id;
        self.send_to(my_id, out.as_slice());
        Ok(())
    }

    /// Answers with the panel of each listed user that is online.
    pub fn user_panel_request(&mut self, me: usize, data: &[u8]) -> (r: Result<(), &'static str>)
        requires
            old(self).wf(),
            me < old(self).sessions@.len(),
        ensures
            final(self).wf(),
            user_panel_request_post(*old(self), *final(self), me as int, data@, r),
    {
        let (ids, _) = decoded(decode_i32s(data))?;
        let mut out: Vec<u8> = Vec::new();
        let mut i: usize = 0;
        while i < self.sessions.len()
            invariant
                i <= self.sessions@.len(),
                out@ == listed_panels(self.sessions@.take(i as int), ids@),
            decreases self.sessions@.len() - i,
        {
            let s = self.sessions.at(i);
            if contains_id(&ids, s.id) {
                out.append(&mut packets::user_panel(s.id, s.username.as_str()));
            }
            proof {
                assert(self.sessions@.take(i + 1).drop_last() =~= self.sessions@.take(i as int));
            }
            i += 1;
            assert(out@ =~= listed_panels(self.sessions@.take(i as int), ids@));
        }
        assert(self.sessions@.take(i as int) =~= self.sessions@);
        let my_id = self.sessions.at(me).id;
        self.send_to(my_id, out.as_slice());
        Ok(())
    }

    /// Answers with the requester's own stats.
    pub fn status_update(&mut self, me: usize)
        requires
            old(self).wf(),
            me < old(self).sessions@.len(),
        ensures
            final(self).wf(),
            status_update_post(*old(self), *final(self), me as int),
    {
        let s = self.sessions.at(me);
        let packet = packets::user_stats(s.id, &s.stats);
        let id = s.id;
        self.send_to(id, packet.as_slice());
    }

    /// Puts the requester in the lobby and sends it every match. Fails when
    /// it is there already.
    pub fn join_lobby(&mut self, me: usize) -> (r: Result<(), &'static str>)
        requires
            old(self).wf(),
            me < old(self).sessions@.len(),
        ensures
            final(self).wf(),
            join_lobby_post(*old(self), *final(self), me as int, r),
    {
        let my_id = self.sessions.at(me).id;
        if contains_id(&self.lobby, my_id) {
            return Err("You are in the lobby already");
        }
        self.lobby.push(my_id);
        let mut out: Vec<u8> = Vec::new();
        let mut i: usize = 0;
        while i < self.matches.len()
            invariant
                i <= self.matches@.len(),
                out@ == match_listing(self.matches@.take(i as int)),
            decreases self.matches@.len() - i,
        {
            out.append(&mut packets::create_match(self.matches.at(i)));
            proof {
                assert(self.matches@.take(i + 1).drop_last() =~= self.matches@.take(i as int));
            }
            i += 1;
        }
        assert(self.matches@.take(i as int) =~= self.matches@);
        self.send_to(my_id, out.as_slice());
        Ok(())
    }

    /// Takes the requester out of the lobby. Fails when it is not there.
    pub fn part_lobby(&mut self, me: usize) -> (r: Result<(), &'static str>)
        requires
            old(self).wf(),
            me < old(self).sessions@.len(),
        ensures
            final(self).wf(),
            part_lobby_post(*old(self), *final(self), me as int, r),
    {
        let my_id = self.sessions.at(me).id;
        if !contains_id(&self.lobby, my_id) {
            return Err("You aren't in the lobby");
        }
        let mut lobby: Vec<i32> = Vec::new();
        let mut i: usize = 0;
        while i < self.lobby.len()
            invariant
                i <= self.lobby@.len(),
                forall|j: int| 0 <= j < lobby@.len() ==> lobby@[j] != my_id,
            decreases self.lobby@.len() - i,
        {
            if self.lobby[i] != my_id {
                lobby.push(self.lobby[i]);
            }
            i += 1;
        }
        self.lobby = lobby;
        Ok(())
    }

    /// Joins the requester to the channel named in the payload.
    pub fn channel_join(&mut self, me: usize, data: &[u8]) -> (r: Result<(), &'static str>)
        requires
            old(self).wf(),
            me < old(self).sessions@.len(),
        ensures
            final(self).wf(),
            channel_join_post(*old(self), *final(self), me as int, data@, r),
    {
        let (name, _) = decoded(decode_str(data))?;
        let ci = match self.channels.find(&name) {
            Some(ci) => ci,
            None => {
                return Err("No such channel");
            },
        };
        let my_id = self.sessions.at(me).id;
        proof {
            lemma_members_named(self.channels@, ci as int);
        }
        if !self.channels.join(ci, my_id) {
            return Err("You are in that channel already");
        }
        let ghost before = self.sessions@;
        self.sessions.session_mut(me).join_channel(name);
        proof {
            lemma_stable_wf(before, self.sessions@);
        }
        let ghost joined = self.sessions@;
        let packet = packets::channel_join_success(self.channels.at(ci));
        self.send_to(my_id, packet.as_slice());
        proof {
            lemma_delivered_from(old(self).sessions@, joined, self.sessions@, seq![my_id], packet@, None);
            assert(self.sessions@[me as int].same_but_queue(joined[me as int]));
        }
        Ok(())
    }

    /// Takes the requester out of the channel named in the payload.
    pub fn channel_part(&mut self, me: usize, data: &[u8]) -> (r: Result<(), &'static str>)
        requires
            old(self).wf(),
            me < old(self).sessions@.len(),
        ensures
            final(self).wf(),
            channel_part_post(*old(self), *final(self), me as int, data@, r),
    {
        let (name, _) = decoded(decode_str(data))?;
        let ci = match self.channels.find(&name) {
            Some(ci) => ci,
            None => {
                return Err("No such channel");
            },
        };
        let my_id = self.sessions.at(me).id;
        proof {
            lemma_members_named(self.channels@, ci as int);
        }
        if !self.channels.part(ci, my_id) {
            return Err("You aren't in that channel");
        }
        let ghost before = self.sessions@;
        let _ = self.sessions.session_mut(me).leave_channel(&name);
        proof {
            lemma_stable_wf(before, self.sessions@);
        }
        let ghost left = self.sessions@;
        let packet = packets::channel_kicked(self.channels.at(ci));
        self.send_to(my_id, packet.as_slice());
        proof {
            lemma_delivered_from(old(self).sessions@, left, self.sessions@, seq![my_id], packet@, None);
        }
        Ok(())
    }



    /// Tells the new host and the lobby about match `mi`, and opens its
    /// channel with the host in it.
    fn announce_match(&mut self, me: usize, mi: usize, mid: u16)
        requires
            old(self).wf(),
            me < old(self).sessions@.len(),
            mi < old(self).matches@.len(),
            old(self).matches@[mi as int].id == mid,
        ensures
            final(self).wf(),
            stable(old(self).sessions@, final(self).sessions@),
            final(self).matches@ == old(self).matches@,
            final(self).sessions@[me as int].match_id == old(self).sessions@[me as int].match_id,
            match_announced(old(self).sessions@, final(self).sessions@, old(self).lobby@, me as int, old(self).matches@[mi as int]),
            exists|ci: int| 0 <= ci < final(self).channels@.len() && {
                let c = #[trigger] final(self).channels@[ci];
                &&& c.name@ == match_channel_spec(mid)
                &&& !c.public
                &&& c.members@ == seq![old(self).sessions@[me as int].id]
            },
    {
        let my_id = self.sessions.at(me).id;
        let mut out = packets::match_join_success(self.matches.at(mi));
        out.append(&mut packets::match_transfer_host());
        self.sessions.enqueue_at(me, out.as_slice());
        let ghost s1 = self.sessions@;
        let packet = packets::create_match(self.matches.at(mi));
        let lobby = unique_ids(&self.lobby);
        self.send_to_all(&lobby, packet.as_slice(), Some(my_id));
        let ghost s2 = self.sessions@;
        let name = match_channel_name(mid);
        let ci = self.channels.add_channel(name.clone(), String::new(), false);
        if self.channels.join(ci, my_id) {
            let ghost before = self.sessions@;
            self.sessions.session_mut(me).join_channel(name);
            proof {
                lemma_stable_wf(before, self.sessions@);
            }
            let packet = packets::channel_join_success(self.channels.at(ci));
            let ghost s3 = self.sessions@;
            self.sessions.enqueue_at(me, packet.as_slice());
            assert(s3[me as int].queue@ == s2[me as int].queue@);
            assert(self.sessions@[me as int].queue@ =~= s2[me as int].queue@ + packet@ || !s2[me as int].is_player());
        }
        assert(self.channels@[ci as int].members@ =~= seq![my_id]);
        assert(self.sessions@[me as int].match_id == old(self).sessions@[me as int].match_id);
        proof {
            let b = old(self).sessions@;
            assert forall|k: int| 0 <= k < b.len() && k != me implies #[trigger] self.sessions@[k].queue@
                == b[k].queue@ + (if b[k].is_player() && old(self).lobby@.contains(b[k].id) {
                    frame(NEW_MATCH, match_data_spec(&old(self).matches@[mi as int]))
                } else {
                    Seq::empty()
                }) by {
                assert(s1[k] == b[k]);
                assert(b[k].id != my_id) by {
                    if k < me {
                        assert(b[k].id != b[me as int].id);
                    } else {
                        assert(b[me as int].id != b[k].id);
                    }
                }
                assert(s2[k].queue@ == self.sessions@[k].queue@);
            }
            assert(s2[me as int].queue@ == s1[me as int].queue@);
            let m = old(self).matches@[mi as int];
            let start = b[me as int].queue@ + frame(packets::MATCH_JOIN_SUCCESS, match_data_spec(&m))
                + frame(packets::MATCH_TRANSFER_HOST, Seq::empty());
            if b[me as int].is_player() {
                assert(s1[me as int].queue@ =~= start);
                assert(self.sessions@[me as int].queue@ == start || self.sessions@[me as int].queue@
                    == start + frame(CHANNEL_JOIN_SUCCESS, wire_str(display_name_of(match_channel_spec(m.id)))));
            }
        }
    }

    /// Creates a match hosted by the requester from the settings in the
    /// payload, with its own private channel that the host joins; tells the
    /// host and everyone in the lobby.
    pub fn create_match(&mut self, me: usize, data: &[u8]) -> (r: Result<(), &'static str>)
        requires
            old(self).wf(),
            me < old(self).sessions@.len(),
        ensures
            final(self).wf(),
            create_match_post(*old(self), *final(self), me as int, data@, r),
    {
        if self.sessions.at(me).kind == SessionKind::Bot {
            return Err("A bot cannot host a match");
        }
        let settings = match decode_settings(data) {
            Ok(s) => s,
            Err(_) => {
                return Err("Couldn't decode the match settings");
            },
        };
        let my_id = self.sessions.at(me).id;
        let mi = match self.matches.create(
            settings.name,
            settings.password,
            settings.beatmap_name,
            settings.beatmap_id,
            settings.beatmap_md5,
            my_id,
        ) {
            Ok(i) => i,
            Err(_) => {
                return Err("No match ids are left");
            },
        };
        let mid = self.matches.at(mi).id;
        let ghost before = self.sessions@;
        {
            let s = self.sessions.session_mut(me);
            s.match_id = Some(mid);
        }
        proof {
            lemma_stable_wf(before, self.sessions@);
        }
        let ghost marked = self.sessions@;
        self.announce_match(me, mi, mid);
        proof {
            let m = self.matches@[mi as int];
            assert forall|k: int| 0 <= k < old(self).sessions@.len() implies marked[k].queue@ == old(self).sessions@[k].queue@
                && marked[k].id == old(self).sessions@[k].id && marked[k].kind == old(self).sessions@[k].kind by {}
            assert(match_announced(marked, self.sessions@, old(self).lobby@, me as int, m));
            assert(match_announced(old(self).sessions@, self.sessions@, old(self).lobby@, me as int, m));
        }
        Ok(())
    }

    /// Applies the settings in the payload to the requester's match, which
    /// only its host may do, then sends the new state to the match's channel
    /// and the lobby. Fails, leaving every match as it was, when the
    /// requester is in no match, is not its host, or the payload is malformed.
    pub fn change_match_settings(&mut self, me: usize, data: &[u8]) -> (r: Result<(), &'static str>)
        requires
            old(self).wf(),
            me < old(self).sessions@.len(),
        ensures
            final(self).wf(),
            change_settings_post(*old(self), *final(self), me as int, data@, r),
    {
        let s = self.sessions.at(me);
        if s.kind == SessionKind::Bot {
            return Err("A bot is in no match");
        }
        let my_id = s.id;
        let mid = match s.match_id {
            Some(m) => m,
            None => {
                return Err("You aren't in a multiplayer match");
            },
        };
        let mi = match self.matches.find(mid) {
            Some(i) => i,
            None => {
                proof {
                    if (mid as int) < self.matches@.len() {
                        self.matches.lemma_wf_item(mid as int);
                    }
                }
                let ghost before = self.sessions@;
                self.sessions.session_mut(me).match_id = None;
                proof {
                    lemma_stable_wf(before, self.sessions@);
                    assert(self.sessions@ =~= before.update(me as int, Session { match_id: None, ..before[me as int] }));
                }
                return Err("The match doesn't exist anymore");
            },
        };
        proof {
            self.matches.lemma_wf_item(mi as int);
        }
        if self.matches.at(mi).host_id != my_id {
            return Err("Only the host can change the settings");
        }
        let settings = match decode_settings(data) {
            Ok(s) => s,
            Err(_) => {
                return Err("Couldn't decode the match settings");
            },
        };
        proof {
            self.matches.lemma_wf_item(mi as int);
        }
        let ghost before = self.matches@[mi as int];
        let m = self.matches.match_mut(mi);
        let _ = m.change_settings(my_id, &settings);
        let ghost changed = self.matches@[mi as int];
        let ghost mid_state = *self;
        self.broadcast_update(mi);
        proof {
            let w = settings_spec(data@)->Some_0;
            let reset = before.mods != w.head.mods || before.beatmap_md5@ != lossy_utf8(w.head.beatmap_md5);
            let after = self.matches@[mi as int];
            assert(settings_changed(&before, &changed, &settings));
            assert forall|j: int| 0 <= j < before.slots@.len() implies
                #[trigger] after.slots@[j] == refreshed(demote(before.slots@[j], reset), old(self).sessions@) by {
                assert(changed.slots@[j] == demote(before.slots@[j], reset));
            }
            assert(mi as int == mid as int);
            assert(settings_applied(&before, &after, w, old(self).sessions@));
            assert(update_sent(&mid_state, self, mi as int));
        }
        Ok(())
    }

    /// Sends the state of match `mi` to its channel's members and to the
    /// lobby, each once. First every slot whose player is no longer
    /// registered is freed, and if any was, the bot says so once in the
    /// match channel.
    pub fn broadcast_update(&mut self, mi: usize)
        requires
            old(self).wf(),
            mi < old(self).matches@.len(),
        ensures
            final(self).wf(),
            stable(old(self).sessions@, final(self).sessions@),
            quiet(old(self).sessions@, final(self).sessions@),
            final(self).channels@ == old(self).channels@,
            final(self).lobby@ == old(self).lobby@,
            final(self).matches@.len() == old(self).matches@.len(),
            forall|k: int| 0 <= k < old(self).matches@.len() && k != mi ==> #[trigger] final(self).matches@[k] == old(self).matches@[k],
            same_but_slots(&old(self).matches@[mi as int], &final(self).matches@[mi as int]),
            final(self).matches@[mi as int].slots@.len() == old(self).matches@[mi as int].slots@.len(),
            forall|j: int| 0 <= j < old(self).matches@[mi as int].slots@.len() ==>
                #[trigger] final(self).matches@[mi as int].slots@[j] == refreshed(old(self).matches@[mi as int].slots@[j], old(self).sessions@),
            update_sent(old(self), final(self), mi as int),
    {
        let mid = self.matches.at(mi).id;
        let chan = match_channel_name(mid);
        let mut j: usize = 0;
        let mut freed = false;
        proof {
            self.matches.lemma_wf_item(mi as int);
        }
        while j < SLOT_COUNT
            invariant
                j <= SLOT_COUNT,
                self.wf(),
                mi < self.matches@.len(),
                self.sessions@ == old(self).sessions@,
                self.channels@ == old(self).channels@,
                self.lobby@ == old(self).lobby@,
                self.matches@.len() == old(self).matches@.len(),
                self.matches@[mi as int].slots@.len() == SLOT_COUNT,
                old(self).matches@[mi as int].slots@.len() == SLOT_COUNT,
                forall|k: int| 0 <= k < old(self).matches@.len() && k != mi ==> #[trigger] self.matches@[k] == old(self).matches@[k],
                same_but_slots(&old(self).matches@[mi as int], &self.matches@[mi as int]),
                forall|q: int| 0 <= q < j ==> #[trigger] self.matches@[mi as int].slots@[q] == refreshed(old(self).matches@[mi as int].slots@[q], old(self).sessions@),
                forall|q: int| j <= q < SLOT_COUNT ==> #[trigger] self.matches@[mi as int].slots@[q] == old(self).matches@[mi as int].slots@[q],
                freed == exists|q: int| 0 <= q < j && #[trigger] player_gone(old(self).matches@[mi as int].slots@[q], old(self).sessions@),
            decreases SLOT_COUNT - j,
        {
            proof {
                self.matches.lemma_wf_item(mi as int);
            }
            let slot = self.matches.at(mi).slots[j];
            let ghost before_j = freed;
            match slot.occupant {
                Some(uid) => {
                    if !self.sessions.has_id(uid) {
                        let m = self.matches.match_mut(mi);
                        m.reset_slot(j);
                        freed = true;
                    }
                },
                None => {},
            }
            proof {
                assert(player_gone(old(self).matches@[mi as int].slots@[j as int], old(self).sessions@) ==> freed);
                if freed && !before_j {
                    assert(player_gone(old(self).matches@[mi as int].slots@[j as int], old(self).sessions@));
                }
            }
            j += 1;
        }
        assert(freed == exists|q: int| 0 <= q < old(self).matches@[mi as int].slots@.len()
            && #[trigger] player_gone(old(self).matches@[mi as int].slots@[q], old(self).sessions@));
        let ghost pre = self.sessions@;
        if freed {
            self.bot_say(&chan, SLOT_FREED_NOTICE);
        }
        let ghost noticed = self.sessions@;
        let packet = packets::update_match(self.matches.at(mi));
        let mut recipients = match self.channels.find(&chan) {
            Some(ci) => {
                proof {
                    lemma_members_named(self.channels@, ci as int);
                    assert(self.channels@[ci as int].wf());
                }
                copy_ids(&self.channels.at(ci).members)
            },
            None => Vec::new(),
        };
        let ghost members = recipients@;
        let lobby = copy_ids(&self.lobby);
        let mut i: usize = 0;
        while i < lobby.len()
            invariant
                i <= lobby@.len(),
                recipients@.no_duplicates(),
                freed == exists|q: int| 0 <= q < old(self).matches@[mi as int].slots@.len()
                    && #[trigger] player_gone(old(self).matches@[mi as int].slots@[q], old(self).sessions@),
                forall|x: i32| recipients@.contains(x) <==> members.contains(x) || lobby@.take(i as int).contains(x),
            decreases lobby@.len() - i,
        {
            let x = lobby[i];
            let ghost r0 = recipients@;
            if !contains_id(&recipients, x) {
                recipients.push(x);
                proof {
                    assert forall|y: i32| recipients@.contains(y) <==> r0.contains(y) || y == x by {
                        if recipients@.contains(y) {
                            let q = choose|q: int| 0 <= q < recipients@.len() && recipients@[q] == y;
                            if q < r0.len() {
                                assert(r0[q] == y);
                            }
                        }
                        if r0.contains(y) {
                            let q = choose|q: int| 0 <= q < r0.len() && r0[q] == y;
                            assert(recipients@[q] == y);
                        }
                        if y == x {
                            assert(recipients@[r0.len() as int] == y);
                        }
                    }
                }
            }
            proof {
                let t0 = lobby@.take(i as int);
                let t1 = lobby@.take(i + 1);
                assert(t1 =~= t0.push(x));
                assert forall|y: i32| t1.contains(y) <==> t0.contains(y) || y == x by {
                    if t1.contains(y) {
                        let q = choose|q: int| 0 <= q < t1.len() && t1[q] == y;
                        if q < t0.len() {
                            assert(t0[q] == y);
                        }
                    }
                    if t0.contains(y) {
                        let q = choose|q: int| 0 <= q < t0.len() && t0[q] == y;
                        assert(t1[q] == y);
                    }
                    if y == x {
                        assert(t1[t0.len() as int] == y);
                    }
                }
                assert forall|y: i32| recipients@.contains(y) <==> members.contains(y) || t1.contains(y) by {
                    if y == x && !recipients@.contains(y) {
                        assert(r0.contains(x));
                    }
                }
            }
            i += 1;
        }
        assert(lobby@.take(i as int) =~= lobby@);
        self.send_to_all(&recipients, packet.as_slice(), None);
        proof {
            let upd = frame(UPDATE_MATCH, match_data_spec(&self.matches@[mi as int]));
            let notice = frame(SEND_MESSAGE, message_payload(BOT_NAME@, BOT_ID, display_name_of(chan@), SLOT_FREED_NOTICE@));
            assert(self.matches@[mi as int].id == mid);
            assert(chan@ == match_channel_spec(self.matches@[mi as int].id));
            assert(freed == exists|q: int| 0 <= q < old(self).matches@[mi as int].slots@.len()
                && #[trigger] player_gone(old(self).matches@[mi as int].slots@[q], old(self).sessions@));
            assert forall|k: int| 0 <= k < old(self).sessions@.len() implies (#[trigger] self.sessions@[k]).queue@
                == old(self).sessions@[k].queue@ + (if freed && members_named(old(self).channels@, chan@).contains(old(self).sessions@[k].id)
                    && old(self).sessions@[k].is_player() { notice } else { Seq::empty() })
                + (if (members_named(old(self).channels@, chan@).contains(old(self).sessions@[k].id) || old(self).lobby@.contains(old(self).sessions@[k].id))
                    && old(self).sessions@[k].is_player() { upd } else { Seq::empty() }) by {
                assert(noticed[k].id == old(self).sessions@[k].id);
                assert(noticed[k].kind == old(self).sessions@[k].kind);
                if !freed {
                    assert(noticed == pre);
                }
                assert(recipients@.contains(old(self).sessions@[k].id) <==> members.contains(old(self).sessions@[k].id) || lobby@.contains(old(self).sessions@[k].id));
            }
            assert(update_sent(old(self), self, mi as int));
        }
    }

    /// Handles one request of the session holding `token`: its packets in
    /// order, a notification for each that fails, until a logout or the end;
    /// then its queue is drained into the answer. Fails, changing nothing,
    /// when no session holds the token.
    pub fn dispatch(&mut self, token: &String, body: &[u8]) -> (r: Result<Outcome, StateError>)
        requires
            old(self).wf(),
        ensures
            final(self).wf(),
            r is Err <==> !old(self).sessions.has_token(token@),
            r is Err ==> r == Err::<Outcome, StateError>(StateError::NoSuchSession)
                && final(self).sessions@ == old(self).sessions@
                && final(self).channels@ == old(self).channels@
                && final(self).matches@ == old(self).matches@
                && final(self).lobby@ == old(self).lobby@,
            r matches Ok(o) ==> (o.logged_out <==> !final(self).sessions.has_token(token@)),
            r matches Ok(o) ==> (o.logged_out <==> logs_out(batch(body@))),
            r matches Ok(o) ==> (o.keep_alive <==> keeps_alive(batch(body@))),
            r matches Ok(o) ==> exists|t: Seq<Server>, res: Seq<Result<(), &'static str>>|
                #![trigger replay(t, res, batch(body@), token_index(old(self).sessions@, token@))]
                replay(t, res, batch(body@), token_index(old(self).sessions@, token@))
                && t[0] == *old(self)
                && batch_end(t.last(), *final(self), res, batch(body@), token_index(old(self).sessions@, token@), token@, o),
    {
        let me = match self.sessions.find_token(token) {
            Some(i) => i,
            None => {
                return Err(StateError::NoSuchSession);
            },
        };
        proof {
            lemma_token_index(self.sessions@, me as int, token@);
        }
        let mut res: Vec<u8> = Vec::new();
        let mut keep_alive = false;
        let mut pos: usize = 0;
        let ghost mut done: Seq<(ClientId, Seq<u8>)> = Seq::empty();
        let ghost mut trace: Seq<Server> = seq![*self];
        let ghost mut results: Seq<Result<(), &'static str>> = Seq::empty();
        proof {
            assert(body@.skip(0) =~= body@);
            assert(done + batch(body@) =~= batch(body@));
        }
        let mut stop = false;
        while !stop && pos < body.len() && body.len() - pos >= HEADER_LEN
            invariant
                stop ==> batch(body@.skip(pos as int)) == Seq::<(ClientId, Seq<u8>)>::empty(),
                self.wf(),
                pos <= body@.len(),
                me < self.sessions@.len(),
                me as int == token_index(old(self).sessions@, token@),
                self.sessions@[me as int].token@ == token@,
                old(self).sessions.has_token(token@),
                batch(body@) == done + batch(body@.skip(pos as int)),
                !logs_out(done),
                keep_alive == keeps_alive(done),
                results.len() == done.len(),
                replay(trace, results, batch(body@), me as int),
                trace[0] == *old(self),
                trace.last() == *self,
                res@ == notes(results),
            decreases body@.len() - pos + if stop { 0int } else { 1int },
        {
            let rest = &body[pos..body.len()];
            assert(rest@ =~= body@.skip(pos as int));
            let (id, len) = match parse_packet(rest) {
                Ok(p) => p,
                Err(_) => {
                    proof {
                        assert(batch(rest@) =~= Seq::empty());
                    }
                    stop = true;
                    continue;
                },
            };
            let data = &rest[HEADER_LEN..HEADER_LEN + len];
            proof {
                let frame_here = (id, data@);
                assert(data@ =~= rest@.subrange(7, 7 + header_len(rest@) as int));
                assert(rest@.skip(7 + len as int) =~= body@.skip(pos + 7 + len as int));
                assert(batch(rest@) == seq![frame_here] + batch(rest@.skip(7 + len as int)));
                assert(done + batch(rest@) =~= done.push(frame_here) + batch(rest@.skip(7 + len as int)));
                lemma_flags_push(done, frame_here);
                done = done.push(frame_here);
                assert(batch(body@)[results.len() as int] == frame_here);
            }
            pos = pos + HEADER_LEN + len;
            let ghost before = *self;
            let outcome = match id {
                ClientId::Logout => {
                    let mut gone = match self.logout(token) {
                        Ok(s) => s,
                        Err(_) => {
                            return Err(StateError::NoSuchSession);
                        },
                    };
                    proof {
                        assert(before.sessions@[me as int] == gone);
                    }
                    res.append(&mut gone.queue);
                    proof {
                        lemma_prefix_flags(done, batch(body@.skip(pos as int)));
                        assert(batch_end(trace.last(), *self, results, batch(body@), me as int, token@,
                            Outcome { response: res, keep_alive, logged_out: true }));
                    }
                    return Ok(Outcome { response: res, keep_alive, logged_out: true });
                },
                ClientId::Pong => {
                    keep_alive = true;
                    Ok(())
                },
                ClientId::ChangeAction => self.change_action(me, data),
                ClientId::SendPublicMessage => self.send_public_message(me, data),
                ClientId::SendPrivateMessage => self.send_private_message(me, data),
                ClientId::RequestStatusUpdate => {
                    self.status_update(me);
                    Ok(())
                },
                ClientId::UserStatsRequest => self.user_stats_request(me, data),
                ClientId::UserPanelRequest => self.user_panel_request(me, data),
                ClientId::JoinLobby => self.join_lobby(me),
                ClientId::PartLobby => self.part_lobby(me),
                ClientId::ChannelJoin => self.channel_join(me, data),
                ClientId::ChannelPart => self.channel_part(me, data),
                ClientId::CreateMatch => self.create_match(me, data),
                ClientId::MatchChangeSettings => self.change_match_settings(me, data),
                ClientId::Unknown(_) => Ok(()),
            };
            proof {
                assert(handled(id, before, *self, me as int, data@, outcome));
                assert(stable(before.sessions@, self.sessions@));
                let t0 = trace;
                let r0 = results;
                trace = trace.push(*self);
                results = results.push(outcome);
                assert forall|i: int| 0 <= i < results.len() implies batch(body@)[i].0 != ClientId::Logout
                    && handled(batch(body@)[i].0, trace[i], trace[i + 1], me as int, batch(body@)[i].1, #[trigger] results[i]) by {
                    if i < r0.len() {
                        assert(results[i] == r0[i]);
                        assert(trace[i] == t0[i]);
                        assert(trace[i + 1] == t0[i + 1]);
                    } else {
                        assert(done[i] == batch(body@)[i]);
                    }
                }
                assert(results.drop_last() =~= r0);
            }
            if let Err(msg) = outcome {
                res.append(&mut packets::notification(msg));
            }
            proof {
                assert(res@ =~= notes(results));
            }
        }
        proof {
            if !stop {
                assert(batch(body@.skip(pos as int)) =~= Seq::empty());
            }
            assert(done + Seq::<(ClientId, Seq<u8>)>::empty() =~= done);
        }
        let ghost last = *self;
        let mut q = self.sessions.drain_at(me);
        res.append(&mut q);
        proof {
            assert(self.sessions.has_token(token@));
            assert(self.sessions@[me as int].queue@.len() == 0);
            assert(batch_end(trace.last(), *self, results, batch(body@), me as int, token@,
                Outcome { response: res, keep_alive, logged_out: false }));
        }
        Ok(Outcome { response: res, keep_alive, logged_out: false })
    }

    /// A new server whose bot holds a fresh random token.
    pub fn start() -> (r: Server)
        ensures
            r.wf(),
            r.sessions@.len() == 1,
            r.sessions@[0].id == BOT_ID,
    {
        Server::new(fresh_token())
    }

    /// Logs in user `id` under a fresh random token; see `login`. Returns
    /// the token and the login answer. Fails, changing nothing, when a
    /// session with that id exists, or in the unlikely case that the drawn
    /// token is taken.
    pub fn login_new(&mut self, id: i32, username: String) -> (r: Result<(String, Vec<u8>), LoginError>)
        requires
            old(self).wf(),
        ensures
            final(self).wf(),
            old(self).sessions.spec_has_id(id) <==> r == Err::<(String, Vec<u8>), LoginError>(LoginError::DuplicateSession),
            r is Err ==> final(self).sessions@ == old(self).sessions@,
            r matches Ok((t, bytes)) ==> t@.len() == 36 && final(self).sessions.has_token(t@)
                && final(self).sessions@.last().id == id && final(self).sessions@.last().token@ == t@
                && bytes@ == login_response(final(self).sessions@.last(), final(self).sessions@, old(self).channels@),
    {
        let token = fresh_token();
        let t = token.clone();
        match self.login(id, username, token) {
            Ok(bytes) => {
                proof {
                    let n = self.sessions@.len() - 1;
                    assert(self.sessions@[n].token@ == t@);
                }
                Ok((t, bytes))
            },
            Err(e) => Err(e),
        }
    }

}

} // verus!
