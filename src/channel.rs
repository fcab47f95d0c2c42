//! Channels: named broadcast groups whose members are session user ids.
use vstd::prelude::*;
use vstd::string::{StrSliceExecFns, StringExecFns};

verus! {

pub open spec fn digit_char(d: nat) -> char {
    if d == 0 { '0' } else if d == 1 { '1' } else if d == 2 { '2' } else if d == 3 { '3' }
    else if d == 4 { '4' } else if d == 5 { '5' } else if d == 6 { '6' } else if d == 7 { '7' }
    else if d == 8 { '8' } else { '9' }
}

/// The decimal digits of `n`, most significant first.
pub open spec fn decimal(n: nat) -> Seq<char>
    decreases n,
{
    if n < 10 {
        seq![digit_char(n)]
    } else {
        decimal(n / 10).push(digit_char(n % 10))
    }
}

fn digit_str(d: u64) -> (r: &'static str)
    requires
        d < 10,
    ensures
        r@ == seq![digit_char(d as nat)],
{
    proof {
        reveal_strlit("0");
        reveal_strlit("1");
        reveal_strlit("2");
        reveal_strlit("3");
        reveal_strlit("4");
        reveal_strlit("5");
        reveal_strlit("6");
        reveal_strlit("7");
        reveal_strlit("8");
        reveal_strlit("9");
    }
    let r = if d == 0 { "0" } else if d == 1 { "1" } else if d == 2 { "2" } else if d == 3 { "3" }
    else if d == 4 { "4" } else if d == 5 { "5" } else if d == 6 { "6" } else if d == 7 { "7" }
    else if d == 8 { "8" } else { "9" };
    assert(r@ =~= seq![digit_char(d as nat)]);
    r
}

/// Appends the decimal digits of `n`.
pub fn push_decimal(s: &mut String, n: u64)
    ensures
        final(s)@ == old(s)@ + decimal(n as nat),
    decreases n,
{
    if n < 10 {
        s.append(digit_str(n));
    } else {
        push_decimal(s, n / 10);
        s.append(digit_str(n % 10));
        assert(old(s)@ + decimal(n as nat) =~= old(s)@ + decimal((n / 10) as nat) + seq![digit_char((n % 10) as nat)]);
    }
}

/// The internal name of the channel of match `id`.
pub open spec fn match_channel_spec(id: u16) -> Seq<char> {
    seq!['#', 'm', 'u', 'l', 't', 'i', '_'] + decimal(id as nat)
}

pub fn match_channel_name(id: u16) -> (r: String)
    ensures
        r@ == match_channel_spec(id),
{
    proof {
        reveal_strlit("#multi_");
    }
    let mut s = String::from_str("#multi_");
    assert(s@ =~= seq!['#', 'm', 'u', 'l', 't', 'i', '_']);
    push_decimal(&mut s, id as u64);
    s
}

/// `p` is a prefix of `s`.
pub open spec fn has_prefix(s: Seq<char>, p: Seq<char>) -> bool {
    p.len() <= s.len() && s.take(p.len() as int) == p
}

/// Whether `s` starts with `p`.
pub fn starts_with(s: &str, p: &str) -> (r: bool)
    ensures
        r == has_prefix(s@, p@),
{
    let n = s.unicode_len();
    let m = p.unicode_len();
    if m > n {
        return false;
    }
    let mut i: usize = 0;
    while i < m
        invariant
            m == p@.len(),
            n == s@.len(),
            m <= n,
            i <= m,
            forall|j: int| 0 <= j < i ==> s@[j] == p@[j],
        decreases m - i,
    {
        if s.get_char(i) != p.get_char(i) {
            assert(s@.take(m as int)[i as int] != p@[i as int]);
            return false;
        }
        i += 1;
    }
    assert(s@.take(m as int) =~= p@);
    true
}

pub open spec fn multi_prefix() -> Seq<char> {
    seq!['#', 'm', 'u', 'l', 't', 'i']
}

pub open spec fn spect_prefix() -> Seq<char> {
    seq!['#', 's', 'p', 'e', 'c', 't']
}

pub open spec fn multi_alias() -> Seq<char> {
    seq!['#', 'm', 'u', 'l', 't', 'i', 'p', 'l', 'a', 'y', 'e', 'r']
}

pub open spec fn spect_alias() -> Seq<char> {
    seq!['#', 's', 'p', 'e', 'c', 't', 'a', 't', 'o', 'r']
}

/// The name clients see: match channels appear as `#multiplayer`, spectator
/// channels as `#spectator`, and others under their own name.
pub open spec fn display_name_of(name: Seq<char>) -> Seq<char> {
    if has_prefix(name, multi_prefix()) {
        multi_alias()
    } else if has_prefix(name, spect_prefix()) {
        spect_alias()
    } else {
        name
    }
}

/// The members after `id` joins, and whether it joined.
pub open spec fn join_spec(members: Seq<i32>, id: i32) -> (Seq<i32>, bool) {
    if members.contains(id) {
        (members, false)
    } else {
        (members.push(id), true)
    }
}

pub struct Channel {
    pub name: String,
    pub desc: String,
    pub public: bool,
    /// User ids of the members, each at most once.
    pub members: Vec<i32>,
}

impl Channel {
    pub open spec fn wf(&self) -> bool {
        self.members@.no_duplicates()
    }

    pub fn new(name: String, desc: String, public: bool) -> (r: Channel)
        ensures
            r.name@ == name@,
            r.desc@ == desc@,
            r.public == public,
            r.members@.len() == 0,
            r.wf(),
    {
        Channel { name, desc, public, members: Vec::new() }
    }

    /// The name clients see; see `display_name_of`.
    pub fn display_name(&self) -> (r: &str)
        ensures
            r@ == display_name_of(self.name@),
    {
        proof {
            reveal_strlit("#multi");
            reveal_strlit("#spect");
            reveal_strlit("#multiplayer");
            reveal_strlit("#spectator");
        }
        if starts_with(self.name.as_str(), "#multi") {
            assert("#multi"@ =~= multi_prefix());
            assert("#multiplayer"@ =~= multi_alias());
            "#multiplayer"
        } else if starts_with(self.name.as_str(), "#spect") {
            assert("#multi"@ =~= multi_prefix());
            assert("#spect"@ =~= spect_prefix());
            assert("#spectator"@ =~= spect_alias());
            "#spectator"
        } else {
            assert("#multi"@ =~= multi_prefix());
            assert("#spect"@ =~= spect_prefix());
            self.name.as_str()
        }
    }

    pub fn users_len(&self) -> (r: usize)
        ensures
            r == self.members@.len(),
    {
        self.members.len()
    }

    pub fn has_user(&self, id: i32) -> (r: bool)
        ensures
            r == self.members@.contains(id),
    {
        let mut i: usize = 0;
        while i < self.members.len()
            invariant
                i <= self.members@.len(),
                forall|j: int| 0 <= j < i ==> self.members@[j] != id,
            decreases self.members@.len() - i,
        {
            if self.members[i] == id {
                return true;
            }
            i += 1;
        }
        false
    }

    /// Adds `id` unless it is already a member; says whether it was added.
    pub fn user_join(&mut self, id: i32) -> (r: bool)
        requires
            old(self).wf(),
        ensures
            (final(self).members@, r) == join_spec(old(self).members@, id),
            !r ==> *final(self) == *old(self),
            final(self).wf(),
            final(self).name@ == old(self).name@,
            final(self).desc@ == old(self).desc@,
            final(self).public == old(self).public,
    {
        if self.has_user(id) {
            return false;
        }
        self.members.push(id);
        true
    }

    /// Removes `id` if it is a member; says whether it was one.
    pub fn user_part(&mut self, id: i32) -> (r: bool)
        requires
            old(self).wf(),
        ensures
            r == old(self).members@.contains(id),
            r ==> final(self).members@.len() == old(self).members@.len() - 1,
            !r ==> *final(self) == *old(self),
            !final(self).members@.contains(id),
            forall|x: i32| x != id ==> (final(self).members@.contains(x) <==> old(self).members@.contains(x)),
            final(self).wf(),
            final(self).name@ == old(self).name@,
            final(self).desc@ == old(self).desc@,
            final(self).public == old(self).public,
    {
        let mut i: usize = 0;
        while i < self.members.len()
            invariant
                *self == *old(self),
                self.members@.no_duplicates(),
                i <= self.members@.len(),
                forall|j: int| 0 <= j < i ==> self.members@[j] != id,
            decreases self.members@.len() - i,
        {
            if self.members[i] == id {
                let ghost m = self.members@;
                self.members.remove(i);
                proof {
                    assert(self.members@ =~= m.remove(i as int));
                    assert forall|x: i32| x != id implies (self.members@.contains(x)
                        <==> m.contains(x)) by {
                        if m.contains(x) {
                            let k = choose|k: int| 0 <= k < m.len() && m[k] == x;
                            if k < i {
                                assert(self.members@[k] == x);
                            } else {
                                assert(k != i);
                                assert(self.members@[k - 1] == x);
                            }
                        }
                    }
                    assert forall|a: int, b: int| 0 <= a < b < self.members@.len() implies self.members@[a] != self.members@[b] by {
                        let a2 = if a < i { a } else { a + 1 };
                        let b2 = if b < i { b } else { b + 1 };
                        assert(self.members@[a] == m[a2]);
                        assert(self.members@[b] == m[b2]);
                    }
                    assert(!self.members@.contains(id)) by {
                        if self.members@.contains(id) {
                            let k = choose|k: int| 0 <= k < self.members@.len() && self.members@[k] == id;
                            if k < i {
                                assert(m[k] == id);
                            } else {
                                assert(m[k + 1] == id);
                                assert(m[i as int] == id);
                            }
                        }
                    }
                }
                return true;
            }
            i += 1;
        }
        false
    }
}

/// Joining twice: the first join adds the member and says so, the second
/// changes nothing and says false; the member count grows by exactly one.
pub proof fn lemma_join_twice(members: Seq<i32>, id: i32)
    requires
        !members.contains(id),
    ensures
        join_spec(members, id).1,
        !join_spec(join_spec(members, id).0, id).1,
        join_spec(join_spec(members, id).0, id).0.len() == members.len() + 1,
{
    assert(join_spec(members, id).0.contains(id)) by {
        assert(members.push(id)[members.len() as int] == id);
    }
}

/// Each channel that had `id` has exactly that member fewer; the others are unchanged.
pub open spec fn channels_parted(before: Seq<Channel>, after: Seq<Channel>, id: i32) -> bool {
    &&& after.len() == before.len()
    &&& forall|i: int| 0 <= i < before.len() ==> {
        &&& #[trigger] after[i].name@ == before[i].name@
        &&& !after[i].members@.contains(id)
        &&& forall|x: i32| x != id ==> (after[i].members@.contains(x) <==> before[i].members@.contains(x))
        &&& before[i].members@.contains(id) ==> after[i].members@.len() == before[i].members@.len() - 1
        &&& !before[i].members@.contains(id) ==> after[i].members@ == before[i].members@
    }
}

/// All channels, keyed by name.
pub struct ChannelList {
    list: Vec<Channel>,
}

impl View for ChannelList {
    type V = Seq<Channel>;

    closed spec fn view(&self) -> Seq<Channel> {
        self.list@
    }
}

impl ChannelList {
    pub open spec fn wf(&self) -> bool {
        &&& forall|i: int, j: int| 0 <= i < j < self@.len() ==> self@[i].name@ != self@[j].name@
        &&& forall|i: int| 0 <= i < self@.len() ==> (#[trigger] self@[i]).wf()
    }

    pub open spec fn has_name(&self, name: Seq<char>) -> bool {
        exists|i: int| 0 <= i < self@.len() && self@[i].name@ == name
    }

    pub fn new() -> (r: ChannelList)
        ensures
            r@.len() == 0,
            r.wf(),
    {
        ChannelList { list: Vec::new() }
    }

    pub fn len(&self) -> (r: usize)
        ensures
            r == self@.len(),
    {
        self.list.len()
    }

    pub fn at(&self, i: usize) -> (r: &Channel)
        requires
            i < self@.len(),
        ensures
            *r == self@[i as int],
    {
        &self.list[i]
    }

    /// The position of the channel named `name`.
    pub fn find(&self, name: &String) -> (r: Option<usize>)
        ensures
            r matches Some(i) ==> i < self@.len() && self@[i as int].name@ == name@,
            r is None ==> !self.has_name(name@),
    {
        let mut i: usize = 0;
        while i < self.list.len()
            invariant
                i <= self@.len(),
                forall|j: int| 0 <= j < i ==> self@[j].name@ != name@,
            decreases self@.len() - i,
        {
            if self.list[i].name == *name {
                return Some(i);
            }
            i += 1;
        }
        None
    }

    /// Creates a channel with no members; one of the same name is replaced.
    pub fn add_channel(&mut self, name: String, desc: String, public: bool) -> (r: usize)
        requires
            old(self).wf(),
        ensures
            final(self).wf(),
            r < final(self)@.len(),
            final(self)@[r as int].name@ == name@,
            final(self)@[r as int].desc@ == desc@,
            final(self)@[r as int].public == public,
            final(self)@[r as int].members@.len() == 0,
            old(self).has_name(name@) ==> final(self)@ == old(self)@.update(r as int, final(self)@[r as int]),
            !old(self).has_name(name@) ==> final(self)@ == old(self)@.push(final(self)@[r as int]),
    {
        let found = self.find(&name);
        let c = Channel::new(name, desc, public);
        match found {
            Some(i) => {
                self.list.set(i, c);
                proof {
                    assert(self@[i as int].name@ == old(self)@[i as int].name@);
                    assert forall|a: int, b: int| 0 <= a < b < self@.len() implies self@[a].name@ != self@[b].name@ by {
                        assert(old(self)@[a].name@ != old(self)@[b].name@);
                        if a != i && b != i {
                            assert(self@[a] == old(self)@[a]);
                            assert(self@[b] == old(self)@[b]);
                        } else if a == i {
                            assert(self@[b] == old(self)@[b]);
                        } else {
                            assert(self@[a] == old(self)@[a]);
                        }
                    }
                    assert forall|a: int| 0 <= a < self@.len() implies (#[trigger] self@[a]).wf() by {
                        if a != i {
                            assert(old(self)@[a].wf());
                            assert(self@[a] == old(self)@[a]);
                        }
                    }
                    assert(self.wf());
                }
                i
            },
            None => {
                self.list.push(c);
                proof {
                    let n = old(self)@.len() as int;
                    assert forall|a: int, b: int| 0 <= a < b < self@.len() implies self@[a].name@ != self@[b].name@ by {
                        if b == n {
                            assert(old(self)@[a].name@ != name@);
                        } else {
                            assert(old(self)@[a].name@ != old(self)@[b].name@);
                        }
                    }
                    assert forall|a: int| 0 <= a < self@.len() implies (#[trigger] self@[a]).wf() by {
                        if a < n {
                            assert(old(self)@[a].wf());
                        }
                    }
                }
                self.list.len() - 1
            },
        }
    }

    /// Adds `id` to the channel at position `i`; see `Channel::user_join`.
    pub fn join(&mut self, i: usize, id: i32) -> (r: bool)
        requires
            old(self).wf(),
            i < old(self)@.len(),
        ensures
            final(self).wf(),
            final(self)@.len() == old(self)@.len(),
            (final(self)@[i as int].members@, r) == join_spec(old(self)@[i as int].members@, id),
            !r ==> final(self)@ == old(self)@,
            final(self)@[i as int].name@ == old(self)@[i as int].name@,
            final(self)@[i as int].public == old(self)@[i as int].public,
            forall|j: int| 0 <= j < old(self)@.len() && j != i ==> final(self)@[j] == old(self)@[j],
    {
        let mut c = self.list.remove(i);
        let r = c.user_join(id);
        self.list.insert(i, c);
        assert(!r ==> self@ =~= old(self)@);
        r
    }

    /// Removes `id` from the channel at position `i`; see `Channel::user_part`.
    pub fn part(&mut self, i: usize, id: i32) -> (r: bool)
        requires
            old(self).wf(),
            i < old(self)@.len(),
        ensures
            final(self).wf(),
            final(self)@.len() == old(self)@.len(),
            r == old(self)@[i as int].members@.contains(id),
            r ==> final(self)@[i as int].members@.len() == old(self)@[i as int].members@.len() - 1,
            !r ==> final(self)@[i as int].members@ == old(self)@[i as int].members@,
            !r ==> final(self)@ == old(self)@,
            !final(self)@[i as int].members@.contains(id),
            forall|x: i32| x != id ==> (final(self)@[i as int].members@.contains(x) <==> old(self)@[i as int].members@.contains(x)),
            final(self)@[i as int].name@ == old(self)@[i as int].name@,
            final(self)@[i as int].public == old(self)@[i as int].public,
            forall|j: int| 0 <= j < old(self)@.len() && j != i ==> final(self)@[j] == old(self)@[j],
    {
        let mut c = self.list.remove(i);
        let r = c.user_part(id);
        self.list.insert(i, c);
        assert(!r ==> self@ =~= old(self)@);
        r
    }

    /// Removes `id` from every channel. Each channel that had it loses
    /// exactly that member; the others are unchanged.
    pub fn part_all(&mut self, id: i32)
        requires
            old(self).wf(),
        ensures
            final(self).wf(),
            channels_parted(old(self)@, final(self)@, id),
    {
        let mut i: usize = 0;
        while i < self.list.len()
            invariant
                self.wf(),
                i <= self@.len(),
                self@.len() == old(self)@.len(),
                forall|j: int| i <= j < self@.len() ==> self@[j] == old(self)@[j],
                forall|j: int| 0 <= j < i ==> {
                    &&& #[trigger] self@[j].name@ == old(self)@[j].name@
                    &&& self@[j].public == old(self)@[j].public
                    &&& !self@[j].members@.contains(id)
                    &&& forall|x: i32| x != id ==> (self@[j].members@.contains(x) <==> old(self)@[j].members@.contains(x))
                    &&& old(self)@[j].members@.contains(id) ==> self@[j].members@.len() == old(self)@[j].members@.len() - 1
                    &&& !old(self)@[j].members@.contains(id) ==> self@[j].members@ == old(self)@[j].members@
                },
            decreases self@.len() - i,
        {
            self.part(i, id);
            i += 1;
        }
    }
}

} // verus!
