use isoku::liveness::{WatchAction, WatchEvent, Watcher};
use isoku::server::Server;

#[test]
fn timeout() {
    let mut glob = Server::new("bot-token".to_string());
    let token = "nrabulinski-token".to_string();
    glob.login(0, "nrabulinski".to_string(), token.clone()).unwrap();
    let mut w = Watcher::new(0, 1000);
    assert_eq!(w.step(WatchEvent::Tick(999)), WatchAction::WaitUntil(1000));
    assert_eq!(w.step(WatchEvent::Tick(1001)), WatchAction::Logout);
    assert!(glob.logout(&token).is_ok());
    assert!(glob.sessions.find_token(&token).is_none());
    assert_eq!(w.step(WatchEvent::Tick(2000)), WatchAction::Stop);
}

#[test]
fn keep_alive_moves_the_deadline() {
    let mut w = Watcher::new(0, 1000);
    assert_eq!(w.step(WatchEvent::KeepAlive(800)), WatchAction::WaitUntil(1800));
    assert_eq!(w.step(WatchEvent::Tick(1000)), WatchAction::WaitUntil(1800));
    assert_eq!(w.step(WatchEvent::Tick(1800)), WatchAction::Logout);
}

#[test]
fn manual_logout_disarms_the_watcher() {
    let mut w = Watcher::new(0, 1000);
    assert_eq!(w.step(WatchEvent::SessionGone), WatchAction::Stop);
    assert_eq!(w.step(WatchEvent::Tick(5000)), WatchAction::Stop);
}

#[test]
fn deadline_saturates() {
    let w = Watcher::new(u64::MAX - 1, 10);
    assert_eq!(w.deadline_ms, u64::MAX);
}
