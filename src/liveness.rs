//! The decisions of a session's liveness watcher. The caller keeps the
//! clock and the timer; the watcher says what to do after each event.
use vstd::prelude::*;

verus! {

/// What the watcher hears, with the time in milliseconds where it matters.
#[derive(Debug, Clone, Copy, PartialEq, Eq, Structural)]
pub enum WatchEvent {
    /// The client's keep-alive signal arrived.
    KeepAlive(u64),
    /// The timer went off.
    Tick(u64),
    /// The session ended some other way.
    SessionGone,
}

/// What the caller does next.
#[derive(Debug, Clone, Copy, PartialEq, Eq, Structural)]
pub enum WatchAction {
    /// Wake the watcher at this time, or on the next keep-alive.
    WaitUntil(u64),
    /// Log the session out: the keep-alive is overdue.
    Logout,
    /// The watcher is done.
    Stop,
}

#[derive(Debug, Clone, Copy, PartialEq, Eq, Structural)]
pub struct Watcher {
    /// How long a session may stay silent.
    pub timeout_ms: u64,
    /// When the session is due to be logged out.
    pub deadline_ms: u64,
    /// The watcher has logged the session out or seen it end.
    pub done: bool,
}

pub open spec fn deadline_after(now: u64, timeout: u64) -> u64 {
    if now as int + timeout as int <= u64::MAX as int {
        (now + timeout) as u64
    } else {
        u64::MAX
    }
}

pub open spec fn watcher_at(now: u64, timeout: u64) -> Watcher {
    Watcher { timeout_ms: timeout, deadline_ms: deadline_after(now, timeout), done: false }
}

/// The watcher's next state and action.
pub open spec fn step_spec(w: Watcher, e: WatchEvent) -> (Watcher, WatchAction) {
    if w.done {
        (w, WatchAction::Stop)
    } else {
        match e {
            WatchEvent::KeepAlive(now) => {
                let d = deadline_after(now, w.timeout_ms);
                (Watcher { deadline_ms: d, ..w }, WatchAction::WaitUntil(d))
            },
            WatchEvent::Tick(now) => if now >= w.deadline_ms {
                (Watcher { done: true, ..w }, WatchAction::Logout)
            } else {
                (w, WatchAction::WaitUntil(w.deadline_ms))
            },
            WatchEvent::SessionGone => (Watcher { done: true, ..w }, WatchAction::Stop),
        }
    }
}

fn deadline(now: u64, timeout: u64) -> (r: u64)
    ensures
        r == deadline_after(now, timeout),
{
    if now <= u64::MAX - timeout {
        now + timeout
    } else {
        u64::MAX
    }
}

impl Watcher {
    /// A watcher started at `now` that allows `timeout` of silence.
    pub fn new(now: u64, timeout: u64) -> (r: Watcher)
        ensures
            r == watcher_at(now, timeout),
    {
        Watcher { timeout_ms: timeout, deadline_ms: deadline(now, timeout), done: false }
    }

    pub fn step(&mut self, e: WatchEvent) -> (r: WatchAction)
        ensures
            (*final(self), r) == step_spec(*old(self), e),
    {
        if self.done {
            return WatchAction::Stop;
        }
        match e {
            WatchEvent::KeepAlive(now) => {
                self.deadline_ms = deadline(now, self.timeout_ms);
                WatchAction::WaitUntil(self.deadline_ms)
            },
            WatchEvent::Tick(now) => {
                if now >= self.deadline_ms {
                    self.done = true;
                    WatchAction::Logout
                } else {
                    WatchAction::WaitUntil(self.deadline_ms)
                }
            },
            WatchEvent::SessionGone => {
                self.done = true;
                WatchAction::Stop
            },
        }
    }
}

/// A watcher started at `start` with no keep-alive asks, at the first timer
/// event at or after `start + timeout`, for the logout; it never asks before
/// then, and never a second time.
pub proof fn lemma_silence_logs_out(start: u64, timeout: u64, early: u64, late: u64, e: WatchEvent)
    requires
        start as int + timeout as int <= u64::MAX as int,
        early < start + timeout,
        late >= start + timeout,
    ensures
        step_spec(watcher_at(start, timeout), WatchEvent::Tick(early)).1 == WatchAction::WaitUntil(
            (start + timeout) as u64,
        ),
        step_spec(watcher_at(start, timeout), WatchEvent::Tick(late)).1 == WatchAction::Logout,
        step_spec(step_spec(watcher_at(start, timeout), WatchEvent::Tick(late)).0, e).1
            == WatchAction::Stop,
{
}

/// Once the session ends another way, the watcher never asks for a logout.
pub proof fn lemma_gone_never_logs_out(w: Watcher, e: WatchEvent)
    ensures
        step_spec(step_spec(w, WatchEvent::SessionGone).0, e).1 != WatchAction::Logout,
{
}

} // verus!
