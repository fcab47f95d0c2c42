use isoku::channel::{match_channel_name, Channel};
use isoku::codec::encode_str;
use isoku::server::Server;

fn setup() -> Server {
    Server::new("bot-token".to_string())
}

#[test]
fn logout() {
    let mut glob = setup();
    let test_channel = glob.channels.add_channel("test".to_string(), String::new(), false);
    let token = "token-of-nrabulinski".to_string();
    glob.login(0, "nrabulinski".to_string(), token.clone()).unwrap();
    assert!(glob.channels.join(test_channel, 0));
    assert!(glob.logout(&token).is_ok());
    assert_eq!(glob.channels.at(test_channel).members.len(), 0);
    assert!(glob.sessions.find_token(&token).is_none());
}

#[test]
fn channel_join() {
    let mut glob = setup();
    let test_channel = glob.channels.add_channel("test".to_string(), String::new(), false);
    let token = "token-of-nrabulinski".to_string();
    glob.login(0, "nrabulinski".to_string(), token.clone()).unwrap();
    let me = glob.sessions.find_token(&token).unwrap();
    let mut event_data = Vec::new();
    encode_str("test", &mut event_data);
    glob.channel_join(me, &event_data).unwrap();
    let ch = glob.channels.at(test_channel);
    assert!(ch.has_user(0));
    assert_eq!(ch.members.len(), 1);
    let user_channels = &glob.sessions.at(me).channels;
    assert_eq!(user_channels.len(), 1);
    assert_eq!(user_channels[0], "test");
}

#[test]
fn joining_twice_is_refused_the_second_time() {
    let mut glob = setup();
    let c = glob.channels.add_channel("test".to_string(), String::new(), true);
    let before = glob.channels.at(c).members.len();
    assert!(glob.channels.join(c, 7));
    assert!(!glob.channels.join(c, 7));
    assert_eq!(glob.channels.at(c).members.len(), before + 1);
}

#[test]
fn logout_leaves_every_joined_channel() {
    let mut glob = setup();
    let a = glob.channels.add_channel("a".to_string(), String::new(), true);
    let b = glob.channels.add_channel("b".to_string(), String::new(), true);
    let token = "t".to_string();
    glob.login(10, "ten".to_string(), token.clone()).unwrap();
    glob.channels.join(a, 10);
    glob.channels.join(b, 10);
    glob.channels.join(b, 11);
    let (la, lb) = (glob.channels.at(a).members.len(), glob.channels.at(b).members.len());
    let gone = glob.logout(&token).unwrap();
    assert_eq!(gone.id, 10);
    assert_eq!(glob.channels.at(a).members.len(), la - 1);
    assert_eq!(glob.channels.at(b).members.len(), lb - 1);
    assert!(glob.channels.at(b).has_user(11));
    assert!(glob.sessions.find_token(&token).is_none());
    assert!(glob.logout(&token).is_err());
}

#[test]
fn duplicate_login_is_refused() {
    let mut glob = setup();
    glob.login(5, "five".to_string(), "t1".to_string()).unwrap();
    assert_eq!(
        glob.login(5, "again".to_string(), "t2".to_string()),
        Err(isoku::session::LoginError::DuplicateSession)
    );
    assert_eq!(
        glob.login(6, "six".to_string(), "t1".to_string()),
        Err(isoku::session::LoginError::DuplicateToken)
    );
}

#[test]
fn login_answer_starts_with_silence_end_and_version() {
    let mut glob = setup();
    let answer = glob.login(5, "five".to_string(), "t1".to_string()).unwrap();
    let mut expected = isoku::packets::silence_end(0);
    expected.extend(isoku::packets::protocol_ver(19));
    expected.extend(isoku::packets::user_id(5));
    assert_eq!(&answer[..expected.len()], &expected[..]);
}

#[test]
fn fresh_login_draws_a_token() {
    let mut glob = Server::start();
    let (token, _) = glob.login_new(42, "answer".to_string()).unwrap();
    assert_eq!(token.len(), 36);
    assert!(glob.sessions.find_token(&token).is_some());
    assert!(glob.login_new(42, "again".to_string()).is_err());
}

#[test]
fn channel_part_forgets_the_channel() {
    let mut glob = setup();
    let c = glob.channels.add_channel("test".to_string(), String::new(), true);
    let token = "t".to_string();
    glob.login(9, "nine".to_string(), token.clone()).unwrap();
    let me = glob.sessions.find_token(&token).unwrap();
    let mut data = Vec::new();
    encode_str("test", &mut data);
    glob.channel_join(me, &data).unwrap();
    glob.channel_part(me, &data).unwrap();
    assert!(!glob.channels.at(c).has_user(9));
    assert!(glob.sessions.at(me).channels.is_empty());
    assert!(glob.channel_part(me, &data).is_err());
}

#[test]
fn match_channels_show_under_their_alias() {
    assert_eq!(match_channel_name(12), "#multi_12");
    let c = Channel::new(match_channel_name(0), String::new(), false);
    assert_eq!(c.display_name(), "#multiplayer");
    let c = Channel::new("#spect_5".to_string(), String::new(), false);
    assert_eq!(c.display_name(), "#spectator");
    let c = Channel::new("#osu".to_string(), String::new(), true);
    assert_eq!(c.display_name(), "#osu");
}
