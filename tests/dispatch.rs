use isoku::codec::{encode_str, encode_u32, encode_u8};
use isoku::frame::build_packet;
use isoku::packets;
use isoku::server::Server;

fn logged_in() -> (Server, String) {
    let mut glob = Server::new("bot-token".to_string());
    let token = "player-token".to_string();
    glob.login(100, "player".to_string(), token.clone()).unwrap();
    (glob, token)
}

#[test]
fn unknown_packets_are_skipped_and_pong_is_a_keep_alive() {
    let (mut glob, token) = logged_in();
    let mut body = build_packet(999, vec![1, 2, 3]);
    body.extend(build_packet(4, Vec::new()));
    let out = glob.dispatch(&token, &body).unwrap();
    assert!(out.keep_alive);
    assert!(!out.logged_out);
    assert!(out.response.is_empty());
}

#[test]
fn channel_join_packet_answers_join_success() {
    let (mut glob, token) = logged_in();
    let mut name = Vec::new();
    encode_str("#osu", &mut name);
    let body = build_packet(63, name);
    let out = glob.dispatch(&token, &body).unwrap();
    let ch = glob.channels.find(&"#osu".to_string()).unwrap();
    assert_eq!(out.response, packets::channel_join_success(glob.channels.at(ch)));
    assert!(glob.channels.at(ch).has_user(100));
}

#[test]
fn failing_packet_becomes_notification() {
    let (mut glob, token) = logged_in();
    let mut name = Vec::new();
    encode_str("#nowhere", &mut name);
    let body = build_packet(63, name);
    let out = glob.dispatch(&token, &body).unwrap();
    assert_eq!(out.response, packets::notification("No such channel"));
}

#[test]
fn logout_ends_the_batch() {
    let (mut glob, token) = logged_in();
    let mut body = build_packet(2, Vec::new());
    body.extend(build_packet(4, Vec::new()));
    let out = glob.dispatch(&token, &body).unwrap();
    assert!(out.logged_out);
    assert!(!out.keep_alive);
    assert!(glob.dispatch(&token, &[]).is_err());
}

#[test]
fn wrong_token_is_refused() {
    let (mut glob, _) = logged_in();
    assert!(glob.dispatch(&"nobody".to_string(), &[]).is_err());
}

#[test]
fn truncated_frame_stops_the_batch() {
    let (mut glob, token) = logged_in();
    let mut body = build_packet(4, Vec::new());
    body.extend(vec![63, 0, 0, 50, 0, 0, 0, 1]);
    let out = glob.dispatch(&token, &body).unwrap();
    assert!(out.keep_alive);
    assert!(out.response.is_empty());
}

#[test]
fn change_action_updates_stats_and_shows_panel() {
    let (mut glob, token) = logged_in();
    let mut payload = Vec::new();
    encode_u8(2, &mut payload);
    encode_str("playing", &mut payload);
    encode_str("abc", &mut payload);
    encode_u32(64, &mut payload);
    let body = build_packet(0, payload);
    let out = glob.dispatch(&token, &body).unwrap();
    assert_eq!(out.response, packets::user_panel(100, "player"));
    let me = glob.sessions.find_token(&token).unwrap();
    let s = &glob.sessions.at(me).stats;
    assert_eq!(s.action, isoku::session::Action::Playing);
    assert_eq!(s.action_text, "playing");
    assert_eq!(s.action_mods, 64);
}

#[test]
fn bad_action_id_is_reported() {
    let (mut glob, token) = logged_in();
    let mut payload = Vec::new();
    encode_u8(99, &mut payload);
    encode_str("", &mut payload);
    encode_str("", &mut payload);
    encode_u32(0, &mut payload);
    let out = glob.dispatch(&token, &build_packet(0, payload)).unwrap();
    assert_eq!(out.response, packets::notification("Unknown action id"));
}

fn settings_payload(name: &str) -> Vec<u8> {
    let m = isoku::matches::Match::new(0, name.to_string(), String::new(), "song".to_string(), 1, "md5".to_string(), 100);
    packets::match_data(&m)
}

#[test]
fn create_match_seats_the_host_and_opens_a_channel() {
    let (mut glob, token) = logged_in();
    let out = glob.dispatch(&token, &build_packet(31, settings_payload("room"))).unwrap();
    assert_eq!(glob.matches.len(), 1);
    let m = glob.matches.at(0);
    assert_eq!(m.host_id, 100);
    assert_eq!(m.slots[0].occupant, Some(100));
    assert_eq!(m.slots[0].status, isoku::matches::SlotStatus::NotReady);
    let mut expected = packets::match_join_success(m);
    expected.extend(packets::match_transfer_host());
    assert_eq!(&out.response[..expected.len()], &expected[..]);
    let ch = glob.channels.find(&"#multi_0".to_string()).unwrap();
    assert!(glob.channels.at(ch).has_user(100));
    assert!(!glob.channels.at(ch).public);
}

#[test]
fn only_the_host_changes_settings() {
    let (mut glob, token) = logged_in();
    glob.dispatch(&token, &build_packet(31, settings_payload("room"))).unwrap();
    let other = "other-token".to_string();
    glob.login(101, "other".to_string(), other.clone()).unwrap();
    let out = glob.dispatch(&other, &build_packet(41, settings_payload("mine"))).unwrap();
    assert_eq!(out.response, packets::notification("You aren't in a multiplayer match"));
    let out = glob.dispatch(&token, &build_packet(41, settings_payload("renamed"))).unwrap();
    assert_eq!(glob.matches.at(0).name, "renamed");
    assert!(!out.response.is_empty());
}

#[test]
fn public_message_reaches_other_members_only() {
    let (mut glob, token) = logged_in();
    let other = "other-token".to_string();
    glob.login(101, "other".to_string(), other.clone()).unwrap();
    let mut join = Vec::new();
    encode_str("#osu", &mut join);
    glob.dispatch(&token, &build_packet(63, join.clone())).unwrap();
    glob.dispatch(&other, &build_packet(63, join)).unwrap();
    let mut msg = Vec::new();
    encode_str("", &mut msg);
    encode_str("hello", &mut msg);
    encode_str("#osu", &mut msg);
    let out = glob.dispatch(&token, &build_packet(1, msg)).unwrap();
    assert!(out.response.is_empty());
    let out = glob.dispatch(&other, &[]).unwrap();
    assert_eq!(out.response, packets::send_message("player", 100, "#osu", "hello"));
}

#[test]
fn private_message_reaches_the_addressee() {
    let (mut glob, token) = logged_in();
    let other = "other-token".to_string();
    glob.login(101, "other".to_string(), other.clone()).unwrap();
    let mut msg = Vec::new();
    encode_str("", &mut msg);
    encode_str("psst", &mut msg);
    encode_str("other", &mut msg);
    glob.dispatch(&token, &build_packet(25, msg)).unwrap();
    let out = glob.dispatch(&other, &[]).unwrap();
    assert_eq!(out.response, packets::send_message("player", 100, "other", "psst"));
}

#[test]
fn lobby_lists_matches_and_refuses_a_second_join() {
    let (mut glob, token) = logged_in();
    glob.dispatch(&token, &build_packet(31, settings_payload("room"))).unwrap();
    let other = "other-token".to_string();
    glob.login(101, "other".to_string(), other.clone()).unwrap();
    let out = glob.dispatch(&other, &build_packet(30, Vec::new())).unwrap();
    assert_eq!(out.response, packets::create_match(glob.matches.at(0)));
    let out = glob.dispatch(&other, &build_packet(30, Vec::new())).unwrap();
    assert_eq!(out.response, packets::notification("You are in the lobby already"));
    let out = glob.dispatch(&other, &build_packet(29, Vec::new())).unwrap();
    assert!(out.response.is_empty());
}

#[test]
fn stats_request_answers_listed_users() {
    let (mut glob, token) = logged_in();
    let mut ids = Vec::new();
    isoku::codec::encode_i32s(&[100, 5555], &mut ids);
    let out = glob.dispatch(&token, &build_packet(85, ids)).unwrap();
    let me = glob.sessions.find_token(&token).unwrap();
    assert_eq!(out.response, packets::user_stats(100, &glob.sessions.at(me).stats));
}

#[test]
fn gone_player_slot_is_freed_with_a_notice() {
    let (mut glob, token) = logged_in();
    glob.dispatch(&token, &build_packet(31, settings_payload("room"))).unwrap();
    glob.dispatch(&token, &[]).unwrap();
    {
        let m = glob.matches.match_mut(0);
        m.slots[3].status = isoku::matches::SlotStatus::NotReady;
        m.slots[3].occupant = Some(555);
    }
    let out = glob.dispatch(&token, &build_packet(41, settings_payload("renamed"))).unwrap();
    let m = glob.matches.at(0);
    assert_eq!(m.slots[3].status, isoku::matches::SlotStatus::Free);
    assert_eq!(m.slots[3].occupant, None);
    assert_eq!(m.slots[0].occupant, Some(100));
    let mut expected = packets::send_message(
        isoku::server::BOT_NAME,
        isoku::server::BOT_ID,
        "#multiplayer",
        isoku::server::SLOT_FREED_NOTICE,
    );
    expected.extend(packets::update_match(m));
    assert_eq!(out.response, expected);
}

#[test]
fn notifications_come_in_order_before_the_queue() {
    let (mut glob, token) = logged_in();
    let mut nowhere = Vec::new();
    encode_str("#nowhere", &mut nowhere);
    let mut osu = Vec::new();
    encode_str("#osu", &mut osu);
    let mut body = build_packet(63, nowhere.clone());
    body.extend(build_packet(63, osu));
    body.extend(build_packet(29, Vec::new()));
    let out = glob.dispatch(&token, &body).unwrap();
    let ch = glob.channels.find(&"#osu".to_string()).unwrap();
    let mut expected = packets::notification("No such channel");
    expected.extend(packets::notification("You aren't in the lobby"));
    expected.extend(packets::channel_join_success(glob.channels.at(ch)));
    assert_eq!(out.response, expected);
}
