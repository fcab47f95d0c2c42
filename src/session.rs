//! Sessions: one authenticated client each, with its outbound queue,
//! presence statistics and channel memberships; and the registry of them.
use vstd::prelude::*;

verus! {

/// What a user is doing, as shown to other users.
#[derive(Debug, Clone, Copy, PartialEq, Eq, Structural)]
pub enum Action {
    Idle,
    Afk,
    Playing,
    Editing,
    Modding,
    Multiplayer,
    Watching,
    Unknown,
    Testing,
    Submitting,
    Paused,
    Lobby,
    Multiplaying,
    OsuDirect,
    NoAction,
}

pub open spec fn action_code(a: Action) -> u8 {
    match a {
        Action::Idle => 0,
        Action::Afk => 1,
        Action::Playing => 2,
        Action::Editing => 3,
        Action::Modding => 4,
        Action::Multiplayer => 5,
        Action::Watching => 6,
        Action::Unknown => 7,
        Action::Testing => 8,
        Action::Submitting => 9,
        Action::Paused => 10,
        Action::Lobby => 11,
        Action::Multiplaying => 12,
        Action::OsuDirect => 13,
        Action::NoAction => 14,
    }
}

impl Action {
    /// The action with wire code `n`, if there is one.
    pub fn from_u8(n: u8) -> (r: Option<Action>)
        ensures
            r matches Some(a) ==> action_code(a) == n,
            r is None <==> n > 14,
    {
        match n {
            0 => Some(Action::Idle),
            1 => Some(Action::Afk),
            2 => Some(Action::Playing),
            3 => Some(Action::Editing),
            4 => Some(Action::Modding),
            5 => Some(Action::Multiplayer),
            6 => Some(Action::Watching),
            7 => Some(Action::Unknown),
            8 => Some(Action::Testing),
            9 => Some(Action::Submitting),
            10 => Some(Action::Paused),
            11 => Some(Action::Lobby),
            12 => Some(Action::Multiplaying),
            13 => Some(Action::OsuDirect),
            14 => Some(Action::NoAction),
            _ => None,
        }
    }

    pub fn code(self) -> (r: u8)
        ensures
            r == action_code(self),
    {
        match self {
            Action::Idle => 0,
            Action::Afk => 1,
            Action::Playing => 2,
            Action::Editing => 3,
            Action::Modding => 4,
            Action::Multiplayer => 5,
            Action::Watching => 6,
            Action::Unknown => 7,
            Action::Testing => 8,
            Action::Submitting => 9,
            Action::Paused => 10,
            Action::Lobby => 11,
            Action::Multiplaying => 12,
            Action::OsuDirect => 13,
            Action::NoAction => 14,
        }
    }
}

/// The four rulesets.
#[derive(Debug, Clone, Copy, PartialEq, Eq, Structural)]
pub enum GameMode {
    Standard,
    Taiko,
    Ctb,
    Mania,
}

pub open spec fn game_mode_code(m: GameMode) -> u8 {
    match m {
        GameMode::Standard => 0,
        GameMode::Taiko => 1,
        GameMode::Ctb => 2,
        GameMode::Mania => 3,
    }
}

impl GameMode {
    pub fn from_u8(n: u8) -> (r: Option<GameMode>)
        ensures
            r matches Some(m) ==> game_mode_code(m) == n,
            r is None <==> n > 3,
    {
        match n {
            0 => Some(GameMode::Standard),
            1 => Some(GameMode::Taiko),
            2 => Some(GameMode::Ctb),
            3 => Some(GameMode::Mania),
            _ => None,
        }
    }

    pub fn code(self) -> (r: u8)
        ensures
            r == game_mode_code(self),
    {
        match self {
            GameMode::Standard => 0,
            GameMode::Taiko => 1,
            GameMode::Ctb => 2,
            GameMode::Mania => 3,
        }
    }
}

/// The IEEE-754 single-precision bits of 1.0, a perfect accuracy.
pub const FULL_ACCURACY_BITS: u32 = 0x3f80_0000;

/// Presence and score summary of a player.
pub struct Stats {
    pub action: Action,
    pub action_text: String,
    pub action_md5: String,
    pub action_mods: u32,
    pub game_mode: GameMode,
    pub beatmap_id: u32,
    pub ranked_score: u64,
    /// The accuracy as the bits of a single-precision float.
    pub accuracy_bits: u32,
    pub playcount: u32,
    pub total_score: u64,
    pub rank: u32,
    pub pp: u16,
}

impl Stats {
    /// The statistics of a player who has just logged in.
    pub fn new() -> (r: Stats)
        ensures
            r.action == Action::Idle,
            r.action_text@.len() == 0,
            r.action_md5@.len() == 0,
            r.action_mods == 0,
            r.game_mode == GameMode::Standard,
            r.beatmap_id == 0,
            r.ranked_score == 0,
            r.accuracy_bits == FULL_ACCURACY_BITS,
            r.playcount == 0,
            r.total_score == 0,
            r.rank == 1,
            r.pp == 0,
    {
        Stats {
            action: Action::Idle,
            action_text: String::new(),
            action_md5: String::new(),
            action_mods: 0,
            game_mode: GameMode::Standard,
            beatmap_id: 0,
            ranked_score: 0,
            accuracy_bits: FULL_ACCURACY_BITS,
            playcount: 0,
            total_score: 0,
            rank: 1,
            pp: 0,
        }
    }
}

/// A real client, or the server's own bot, which receives nothing.
#[derive(Debug, Clone, Copy, PartialEq, Eq, Structural)]
pub enum SessionKind {
    Player,
    Bot,
}

/// One connected user.
pub struct Session {
    pub id: i32,
    /// The opaque credential a client presents with each request.
    pub token: String,
    pub username: String,
    pub kind: SessionKind,
    pub stats: Stats,
    /// Bytes waiting for the client's next request.
    pub queue: Vec<u8>,
    /// Names of the channels joined; the channels themselves are authoritative.
    pub channels: Vec<String>,
    /// The match the session is in, if any.
    pub match_id: Option<u16>,
}

impl Session {
    /// A session with no queued bytes, no channels and no match.
    pub fn new(id: i32, token: String, username: String, kind: SessionKind) -> (r: Session)
        ensures
            r.id == id,
            r.token@ == token@,
            r.username@ == username@,
            r.kind == kind,
            r.queue@.len() == 0,
            r.channels@.len() == 0,
            r.match_id is None,
            r.stats.action == Action::Idle,
    {
        Session {
            id,
            token,
            username,
            kind,
            stats: Stats::new(),
            queue: Vec::new(),
            channels: Vec::new(),
            match_id: None,
        }
    }

    pub open spec fn is_player(&self) -> bool {
        self.kind == SessionKind::Player
    }

    /// Appends `bytes` to a player's queue; a bot's stays empty.
    pub fn enqueue(&mut self, bytes: &[u8])
        ensures
            final(self).queue@ == if old(self).is_player() {
                old(self).queue@ + bytes@
            } else {
                old(self).queue@
            },
            final(self).same_but_queue(*old(self)),
    {
        if self.kind == SessionKind::Player {
            crate::codec::push_bytes(&mut self.queue, bytes);
        }
    }

    /// Everything but the queue is unchanged.
    pub open spec fn same_but_queue(&self, other: Session) -> bool {
        &&& self.id == other.id
        &&& self.token@ == other.token@
        &&& self.username@ == other.username@
        &&& self.kind == other.kind
        &&& self.channels@ == other.channels@
        &&& self.match_id == other.match_id
        &&& self.stats == other.stats
    }

    /// Empties the queue and returns what it held.
    pub fn clear_queue(&mut self) -> (r: Vec<u8>)
        ensures
            r@ == old(self).queue@,
            final(self).queue@.len() == 0,
            final(self).same_but_queue(*old(self)),
    {
        let mut out: Vec<u8> = Vec::new();
        out.append(&mut self.queue);
        out
    }

    /// Forgets the channel `name`; says whether the session had it.
    pub fn leave_channel(&mut self, name: &String) -> (r: bool)
        ensures
            r == exists|k: int| 0 <= k < old(self).channels@.len() && (#[trigger] old(self).channels@[k])@ == name@,
            r ==> final(self).channels@.len() == old(self).channels@.len() - 1,
            !r ==> final(self).channels@ == old(self).channels@,
            final(self).queue@ == old(self).queue@,
            final(self).id == old(self).id,
            final(self).token@ == old(self).token@,
            final(self).username@ == old(self).username@,
            final(self).kind == old(self).kind,
            final(self).match_id == old(self).match_id,
    {
        let mut i: usize = 0;
        while i < self.channels.len()
            invariant
                *self == *old(self),
                i <= self.channels@.len(),
                forall|k: int| 0 <= k < i ==> self.channels@[k]@ != name@,
            decreases self.channels@.len() - i,
        {
            if self.channels[i] == *name {
                self.channels.remove(i);
                assert(old(self).channels@[i as int]@ == name@);
                return true;
            }
            i += 1;
        }
        false
    }

    /// Records that the session joined the channel `name`.
    pub fn join_channel(&mut self, name: String)
        ensures
            final(self).channels@ == old(self).channels@.push(name),
            final(self).queue@ == old(self).queue@,
            final(self).id == old(self).id,
            final(self).token@ == old(self).token@,
            final(self).username@ == old(self).username@,
            final(self).kind == old(self).kind,
            final(self).match_id == old(self).match_id,
    {
        self.channels.push(name);
    }
}

/// Why a login was refused.
#[derive(Debug, Clone, Copy, PartialEq, Eq, Structural)]
pub enum LoginError {
    /// A session with the same user id is already registered.
    DuplicateSession,
    /// The drawn token is already in use.
    DuplicateToken,
}

/// All registered sessions, keyed by token; user ids and tokens are unique.
pub struct SessionList {
    list: Vec<Session>,
}

pub open spec fn ids_unique(s: Seq<Session>) -> bool {
    forall|i: int, j: int| 0 <= i < j < s.len() ==> s[i].id != s[j].id
}

pub open spec fn tokens_unique(s: Seq<Session>) -> bool {
    forall|i: int, j: int| 0 <= i < j < s.len() ==> s[i].token@ != s[j].token@
}

/// The view of a session list with every player's queue extended by `bytes`.
pub open spec fn all_enqueued(before: Seq<Session>, after: Seq<Session>, bytes: Seq<u8>) -> bool {
    &&& after.len() == before.len()
    &&& forall|i: int|
        0 <= i < before.len() ==> {
            &&& (#[trigger] after[i]).same_but_queue(before[i])
            &&& after[i].queue@ == if before[i].is_player() {
                before[i].queue@ + bytes
            } else {
                before[i].queue@
            }
        }
}

impl View for SessionList {
    type V = Seq<Session>;

    closed spec fn view(&self) -> Seq<Session> {
        self.list@
    }
}

impl SessionList {
    pub open spec fn wf(&self) -> bool {
        ids_unique(self@) && tokens_unique(self@)
    }

    pub open spec fn has_token(&self, token: Seq<char>) -> bool {
        exists|i: int| 0 <= i < self@.len() && self@[i].token@ == token
    }

    pub open spec fn spec_has_id(&self, id: i32) -> bool {
        exists|i: int| 0 <= i < self@.len() && self@[i].id == id
    }

    pub fn new() -> (r: SessionList)
        ensures
            r@.len() == 0,
            r.wf(),
    {
        SessionList { list: Vec::new() }
    }

    pub fn len(&self) -> (r: usize)
        ensures
            r == self@.len(),
    {
        self.list.len()
    }

    /// The session at position `i`.
    pub fn at(&self, i: usize) -> (r: &Session)
        requires
            i < self@.len(),
        ensures
            *r == self@[i as int],
    {
        &self.list[i]
    }

    pub fn has_id(&self, id: i32) -> (r: bool)
        ensures
            r == self.spec_has_id(id),
    {
        self.find_id(id).is_some()
    }

    /// The position of the session with user id `id`.
    pub fn find_id(&self, id: i32) -> (r: Option<usize>)
        ensures
            r matches Some(i) ==> i < self@.len() && self@[i as int].id == id,
            r is None ==> !self.spec_has_id(id),
    {
        let mut i: usize = 0;
        while i < self.list.len()
            invariant
                i <= self@.len(),
                forall|j: int| 0 <= j < i ==> self@[j].id != id,
            decreases self@.len() - i,
        {
            if self.list[i].id == id {
                return Some(i);
            }
            i += 1;
        }
        None
    }

    /// The position of the session holding `token`.
    pub fn find_token(&self, token: &String) -> (r: Option<usize>)
        ensures
            r matches Some(i) ==> i < self@.len() && self@[i as int].token@ == token@,
            r is None ==> !self.has_token(token@),
    {
        let mut i: usize = 0;
        while i < self.list.len()
            invariant
                i <= self@.len(),
                forall|j: int| 0 <= j < i ==> self@[j].token@ != token@,
            decreases self@.len() - i,
        {
            if self.list[i].token == *token {
                return Some(i);
            }
            i += 1;
        }
        None
    }

    /// The position of the session whose user name is `name`.
    pub fn find_username(&self, name: &String) -> (r: Option<usize>)
        ensures
            r matches Some(i) ==> i < self@.len() && self@[i as int].username@ == name@,
            r is None ==> forall|j: int| 0 <= j < self@.len() ==> self@[j].username@ != name@,
    {
        let mut i: usize = 0;
        while i < self.list.len()
            invariant
                i <= self@.len(),
                forall|j: int| 0 <= j < i ==> self@[j].username@ != name@,
            decreases self@.len() - i,
        {
            if self.list[i].username == *name {
                return Some(i);
            }
            i += 1;
        }
        None
    }

    /// Registers a new session with user id `id` under `token`. Fails when a
    /// session with that id, or that token, already exists.
    pub fn add(&mut self, id: i32, username: String, token: String, kind: SessionKind) -> (r: Result<
        usize,
        LoginError,
    >)
        requires
            old(self).wf(),
        ensures
            final(self).wf(),
            old(self).spec_has_id(id) ==> r == Err::<usize, LoginError>(LoginError::DuplicateSession)
                && final(self)@ == old(self)@,
            !old(self).spec_has_id(id) && old(self).has_token(token@) ==> r == Err::<
                usize,
                LoginError,
            >(LoginError::DuplicateToken) && final(self)@ == old(self)@,
            !old(self).spec_has_id(id) && !old(self).has_token(token@) ==> r is Ok && r->Ok_0
                == old(self)@.len() && final(self)@.len() == old(self)@.len() + 1
                && final(self)@.take(old(self)@.len() as int) == old(self)@ && {
                let s = final(self)@.last();
                &&& s.id == id
                &&& s.token@ == token@
                &&& s.username@ == username@
                &&& s.kind == kind
                &&& s.queue@.len() == 0
                &&& s.channels@.len() == 0
                &&& s.match_id is None
                &&& s.stats.action == Action::Idle
            },
    {
        if self.has_id(id) {
            return Err(LoginError::DuplicateSession);
        }
        if self.find_token(&token).is_some() {
            return Err(LoginError::DuplicateToken);
        }
        let n = self.list.len();
        let s = Session::new(id, token, username, kind);
        self.list.push(s);
        assert(self@.take(n as int) =~= old(self)@);
        Ok(n)
    }

    /// Removes the session holding `token` and returns it.
    pub fn remove(&mut self, token: &String) -> (r: Option<Session>)
        requires
            old(self).wf(),
        ensures
            final(self).wf(),
            r is None <==> !old(self).has_token(token@),
            r is None ==> final(self)@ == old(self)@,
            r matches Some(s) ==> s.token@ == token@ && exists|i: int|
                0 <= i < old(self)@.len() && old(self)@[i] == s && final(self)@ == old(
                    self,
                )@.remove(i),
            !final(self).has_token(token@),
    {
        match self.find_token(token) {
            Some(i) => {
                let s = self.list.remove(i);
                assert(!self.has_token(token@)) by {
                    assert forall|j: int| 0 <= j < self@.len() implies self@[j].token@ != token@ by {
                        if j < i {
                            assert(old(self)@[j].token@ != old(self)@[i as int].token@);
                        } else {
                            assert(old(self)@[j + 1].token@ != old(self)@[i as int].token@);
                        }
                    }
                }
                Some(s)
            },
            None => None,
        }
    }

    /// Appends `bytes` to the queue of the session at position `i`.
    pub fn enqueue_at(&mut self, i: usize, bytes: &[u8])
        requires
            i < old(self)@.len(),
        ensures
            final(self)@.len() == old(self)@.len(),
            forall|j: int|
                0 <= j < old(self)@.len() && j != i ==> final(self)@[j] == old(self)@[j],
            final(self)@[i as int].same_but_queue(old(self)@[i as int]),
            final(self)@[i as int].queue@ == if old(self)@[i as int].is_player() {
                old(self)@[i as int].queue@ + bytes@
            } else {
                old(self)@[i as int].queue@
            },
            old(self).wf() ==> final(self).wf(),
    {
        let mut s = self.list.remove(i);
        s.enqueue(bytes);
        self.list.insert(i, s);
        proof {
            assert forall|j: int| 0 <= j < old(self)@.len() && j != i implies final(self)@[j] == old(
                self,
            )@[j] by {}
        }
    }

    /// Appends `bytes` to the queue of every registered session.
    pub fn enqueue_all(&mut self, bytes: &[u8])
        ensures
            all_enqueued(old(self)@, final(self)@, bytes@),
            old(self).wf() ==> final(self).wf(),
    {
        let mut i: usize = 0;
        while i < self.list.len()
            invariant
                i <= self@.len(),
                self@.len() == old(self)@.len(),
                forall|j: int| i <= j < self@.len() ==> self@[j] == old(self)@[j],
                forall|j: int|
                    0 <= j < i ==> {
                        &&& (#[trigger] self@[j]).same_but_queue(old(self)@[j])
                        &&& self@[j].queue@ == if old(self)@[j].is_player() {
                            old(self)@[j].queue@ + bytes@
                        } else {
                            old(self)@[j].queue@
                        }
                    },
            decreases self@.len() - i,
        {
            self.enqueue_at(i, bytes);
            i += 1;
        }
        proof {
            if old(self).wf() {
                assert forall|a: int, b: int| 0 <= a < b < self@.len() implies self@[a].id
                    != self@[b].id && self@[a].token@ != self@[b].token@ by {
                    assert(self@[a].same_but_queue(old(self)@[a]));
                    assert(self@[b].same_but_queue(old(self)@[b]));
                }
            }
        }
    }

    /// Empties the queue of the session at position `i` and returns it.
    pub fn drain_at(&mut self, i: usize) -> (r: Vec<u8>)
        requires
            i < old(self)@.len(),
        ensures
            r@ == old(self)@[i as int].queue@,
            final(self)@.len() == old(self)@.len(),
            forall|j: int|
                0 <= j < old(self)@.len() && j != i ==> final(self)@[j] == old(self)@[j],
            final(self)@[i as int].same_but_queue(old(self)@[i as int]),
            final(self)@[i as int].queue@.len() == 0,
            old(self).wf() ==> final(self).wf(),
    {
        let mut s = self.list.remove(i);
        let r = s.clear_queue();
        self.list.insert(i, s);
        r
    }

    /// Mutable access to the session at position `i`, for changes that keep
    /// its id and token.
    pub fn session_mut(&mut self, i: usize) -> (r: &mut Session)
        requires
            i < old(self)@.len(),
        ensures
            *r == old(self)@[i as int],
            final(self)@ == old(self)@.update(i as int, *final(r)),
    {
        &mut self.list[i]
    }

    /// The user ids of all sessions, in registry order.
    pub fn ids(&self) -> (r: Vec<i32>)
        ensures
            r@.len() == self@.len(),
            forall|i: int| 0 <= i < self@.len() ==> r@[i] == self@[i].id,
    {
        let mut out: Vec<i32> = Vec::new();
        let mut i: usize = 0;
        while i < self.list.len()
            invariant
                i <= self@.len(),
                out@.len() == i,
                forall|j: int| 0 <= j < i ==> out@[j] == self@[j].id,
            decreases self@.len() - i,
        {
            out.push(self.list[i].id);
            i += 1;
        }
        out
    }
}

} // verus!
