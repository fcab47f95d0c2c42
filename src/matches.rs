//! Multiplayer matches: sixteen slots, a host, and settings that change as
//! one update.
use vstd::prelude::*;
use crate::codec::{wire_i32, wire_u32, encode_i32, encode_u32};

verus! {

/// The number of slots in every match.
pub const SLOT_COUNT: usize = 16;

/// The status bits that mean a player sits in the slot.
pub const OCCUPIED_MASK: u8 = 0b1011_1100;

#[derive(Debug, Clone, Copy, PartialEq, Eq, Structural)]
pub enum SlotStatus {
    Free,
    Locked,
    NotReady,
    Ready,
    NoMap,
    Playing,
    PlayingQuit,
}

pub open spec fn status_code(s: SlotStatus) -> u8 {
    match s {
        SlotStatus::Free => 1,
        SlotStatus::Locked => 2,
        SlotStatus::NotReady => 4,
        SlotStatus::Ready => 8,
        SlotStatus::NoMap => 16,
        SlotStatus::Playing => 32,
        SlotStatus::PlayingQuit => 128,
    }
}

pub open spec fn status_of(n: u8) -> Option<SlotStatus> {
    match n {
        1 => Some(SlotStatus::Free),
        2 => Some(SlotStatus::Locked),
        4 => Some(SlotStatus::NotReady),
        8 => Some(SlotStatus::Ready),
        16 => Some(SlotStatus::NoMap),
        32 => Some(SlotStatus::Playing),
        128 => Some(SlotStatus::PlayingQuit),
        _ => None,
    }
}

pub open spec fn team_of(n: u8) -> Option<Team> {
    match n {
        0 => Some(Team::NoTeam),
        1 => Some(Team::Blue),
        2 => Some(Team::Red),
        _ => None,
    }
}

pub open spec fn scoring_of(n: u8) -> Option<ScoringType> {
    match n {
        0 => Some(ScoringType::Score),
        1 => Some(ScoringType::Accuracy),
        2 => Some(ScoringType::Combo),
        3 => Some(ScoringType::ScoreV2),
        _ => None,
    }
}

pub open spec fn team_type_of(n: u8) -> Option<TeamType> {
    match n {
        0 => Some(TeamType::HeadToHead),
        1 => Some(TeamType::TagCoop),
        2 => Some(TeamType::TeamVs),
        3 => Some(TeamType::TagTeamVs),
        _ => None,
    }
}

/// Every status but `Free` and `Locked` has a player in the slot.
pub open spec fn occupied(s: SlotStatus) -> bool {
    s != SlotStatus::Free && s != SlotStatus::Locked
}

impl SlotStatus {
    pub fn code(self) -> (r: u8)
        ensures
            r == status_code(self),
    {
        match self {
            SlotStatus::Free => 1,
            SlotStatus::Locked => 2,
            SlotStatus::NotReady => 4,
            SlotStatus::Ready => 8,
            SlotStatus::NoMap => 16,
            SlotStatus::Playing => 32,
            SlotStatus::PlayingQuit => 128,
        }
    }

    /// The status with wire code `n`, if there is one.
    pub fn from_u8(n: u8) -> (r: Option<SlotStatus>)
        ensures
            r == status_of(n),
    {
        match n {
            1 => Some(SlotStatus::Free),
            2 => Some(SlotStatus::Locked),
            4 => Some(SlotStatus::NotReady),
            8 => Some(SlotStatus::Ready),
            16 => Some(SlotStatus::NoMap),
            32 => Some(SlotStatus::Playing),
            128 => Some(SlotStatus::PlayingQuit),
            _ => None,
        }
    }

    /// Tested against the occupied bit mask.
    pub fn is_occupied(self) -> (r: bool)
        ensures
            r == occupied(self),
            r == (status_code(self) & OCCUPIED_MASK != 0),
    {
        assert(1u8 & 0b1011_1100u8 == 0 && 2u8 & 0b1011_1100u8 == 0 && 4u8 & 0b1011_1100u8 != 0
            && 8u8 & 0b1011_1100u8 != 0 && 16u8 & 0b1011_1100u8 != 0 && 32u8 & 0b1011_1100u8 != 0
            && 128u8 & 0b1011_1100u8 != 0) by (bit_vector);
        self.code() & OCCUPIED_MASK != 0
    }
}

#[derive(Debug, Clone, Copy, PartialEq, Eq, Structural)]
pub enum Team {
    NoTeam,
    Blue,
    Red,
}

pub open spec fn team_code(t: Team) -> u8 {
    match t {
        Team::NoTeam => 0,
        Team::Blue => 1,
        Team::Red => 2,
    }
}

impl Team {
    pub fn code(self) -> (r: u8)
        ensures
            r == team_code(self),
    {
        match self {
            Team::NoTeam => 0,
            Team::Blue => 1,
            Team::Red => 2,
        }
    }

    pub fn from_u8(n: u8) -> (r: Option<Team>)
        ensures
            r == team_of(n),
    {
        match n {
            0 => Some(Team::NoTeam),
            1 => Some(Team::Blue),
            2 => Some(Team::Red),
            _ => None,
        }
    }
}

#[derive(Debug, Clone, Copy, PartialEq, Eq, Structural)]
pub enum ScoringType {
    Score,
    Accuracy,
    Combo,
    ScoreV2,
}

pub open spec fn scoring_code(t: ScoringType) -> u8 {
    match t {
        ScoringType::Score => 0,
        ScoringType::Accuracy => 1,
        ScoringType::Combo => 2,
        ScoringType::ScoreV2 => 3,
    }
}

impl ScoringType {
    pub fn code(self) -> (r: u8)
        ensures
            r == scoring_code(self),
    {
        match self {
            ScoringType::Score => 0,
            ScoringType::Accuracy => 1,
            ScoringType::Combo => 2,
            ScoringType::ScoreV2 => 3,
        }
    }

    pub fn from_u8(n: u8) -> (r: Option<ScoringType>)
        ensures
            r == scoring_of(n),
    {
        match n {
            0 => Some(ScoringType::Score),
            1 => Some(ScoringType::Accuracy),
            2 => Some(ScoringType::Combo),
            3 => Some(ScoringType::ScoreV2),
            _ => None,
        }
    }
}

#[derive(Debug, Clone, Copy, PartialEq, Eq, Structural)]
pub enum TeamType {
    HeadToHead,
    TagCoop,
    TeamVs,
    TagTeamVs,
}

pub open spec fn team_type_code(t: TeamType) -> u8 {
    match t {
        TeamType::HeadToHead => 0,
        TeamType::TagCoop => 1,
        TeamType::TeamVs => 2,
        TeamType::TagTeamVs => 3,
    }
}

impl TeamType {
    pub fn code(self) -> (r: u8)
        ensures
            r == team_type_code(self),
    {
        match self {
            TeamType::HeadToHead => 0,
            TeamType::TagCoop => 1,
            TeamType::TeamVs => 2,
            TeamType::TagTeamVs => 3,
        }
    }

    pub fn from_u8(n: u8) -> (r: Option<TeamType>)
        ensures
            r == team_type_of(n),
    {
        match n {
            0 => Some(TeamType::HeadToHead),
            1 => Some(TeamType::TagCoop),
            2 => Some(TeamType::TeamVs),
            3 => Some(TeamType::TagTeamVs),
            _ => None,
        }
    }
}

/// One seat of a match.
#[derive(Debug, Clone, Copy, PartialEq, Eq, Structural)]
pub struct Slot {
    pub status: SlotStatus,
    pub team: Team,
    /// The user id of the player in the slot.
    pub occupant: Option<i32>,
    /// The slot's own mods, which count only under freemod.
    pub mods: u32,
    pub skip: bool,
}

impl Slot {
    /// An open, empty slot.
    pub fn free() -> (r: Slot)
        ensures
            r == (Slot {
                status: SlotStatus::Free,
                team: Team::NoTeam,
                occupant: None,
                mods: 0,
                skip: false,
            }),
    {
        Slot { status: SlotStatus::Free, team: Team::NoTeam, occupant: None, mods: 0, skip: false }
    }

    /// The occupant is present exactly when the status says the slot is occupied.
    pub open spec fn wf(&self) -> bool {
        self.occupant is Some <==> occupied(self.status)
    }
}

/// Settings as a client sends them when it creates or changes a match.
pub struct MatchSettings {
    pub id: u16,
    pub in_progress: bool,
    pub match_type: u8,
    pub mods: u32,
    pub name: String,
    pub password: String,
    pub beatmap_name: String,
    pub beatmap_id: u32,
    pub beatmap_md5: String,
    pub slot_statuses: Vec<SlotStatus>,
    pub slot_teams: Vec<Team>,
    /// The occupant of each slot, `-1` where the slot is not occupied.
    pub slot_ids: Vec<i32>,
    pub host_id: i32,
    pub game_mode: u8,
    pub scoring_type: ScoringType,
    pub team_type: TeamType,
    pub freemod: bool,
    /// Each slot's mods, sent only under freemod.
    pub slot_mods: Option<Vec<i32>>,
    pub seed: i32,
}

/// Why a match operation was refused.
#[derive(Debug, Clone, Copy, PartialEq, Eq, Structural)]
pub enum MatchError {
    /// Only the host may change the settings.
    NotHost,
    /// Every match id has been handed out.
    NoFreeId,
}

pub struct Match {
    pub id: u16,
    pub name: String,
    /// Empty when the match has no password.
    pub password: String,
    pub in_progress: bool,
    pub mods: u32,
    pub beatmap_name: String,
    pub beatmap_id: u32,
    pub beatmap_md5: String,
    pub host_id: i32,
    pub game_mode: u8,
    pub scoring_type: ScoringType,
    pub team_type: TeamType,
    pub freemod: bool,
    pub slots: Vec<Slot>,
}

/// The id bytes of one slot: the occupant's id when occupied, else nothing.
pub open spec fn slot_id_bytes(s: Slot) -> Seq<u8> {
    if occupied(s.status) {
        match s.occupant {
            Some(id) => wire_i32(id),
            None => Seq::empty(),
        }
    } else {
        Seq::empty()
    }
}

/// The occupants' ids, in slot order.
pub open spec fn slot_ids_spec(slots: Seq<Slot>) -> Seq<u8>
    decreases slots.len(),
{
    if slots.len() == 0 {
        Seq::empty()
    } else {
        slot_ids_spec(slots.drop_last()) + slot_id_bytes(slots.last())
    }
}

/// Every slot's mods as four bytes, in slot order.
pub open spec fn slot_mods_spec(slots: Seq<Slot>) -> Seq<u8>
    decreases slots.len(),
{
    if slots.len() == 0 {
        Seq::empty()
    } else {
        slot_mods_spec(slots.drop_last()) + wire_u32(slots.last().mods)
    }
}

/// Everything but the slots is unchanged.
pub open spec fn same_but_slots(a: &Match, b: &Match) -> bool {
    &&& b.id == a.id
    &&& b.name@ == a.name@
    &&& b.password@ == a.password@
    &&& b.in_progress == a.in_progress
    &&& b.mods == a.mods
    &&& b.beatmap_name@ == a.beatmap_name@
    &&& b.beatmap_id == a.beatmap_id
    &&& b.beatmap_md5@ == a.beatmap_md5@
    &&& b.host_id == a.host_id
    &&& b.game_mode == a.game_mode
    &&& b.scoring_type == a.scoring_type
    &&& b.team_type == a.team_type
    &&& b.freemod == a.freemod
}

/// The settings after a change requested by the host.
pub open spec fn settings_changed(before: &Match, after: &Match, s: &MatchSettings) -> bool {
    let reset = before.mods != s.mods || before.beatmap_md5@ != s.beatmap_md5@;
    &&& after.id == before.id
    &&& after.name@ == s.name@
    &&& after.password@ == before.password@
    &&& after.in_progress == s.in_progress
    &&& after.mods == s.mods
    &&& after.beatmap_name@ == s.beatmap_name@
    &&& after.beatmap_id == s.beatmap_id
    &&& after.beatmap_md5@ == s.beatmap_md5@
    &&& after.host_id == before.host_id
    &&& after.game_mode == s.game_mode
    &&& after.scoring_type == s.scoring_type
    &&& after.team_type == s.team_type
    &&& after.freemod == s.freemod
    &&& after.slots@.len() == before.slots@.len()
    &&& forall|i: int|
        0 <= i < before.slots@.len() ==> #[trigger] after.slots@[i] == if reset
            && before.slots@[i].status == SlotStatus::Ready {
            Slot { status: SlotStatus::NotReady, ..before.slots@[i] }
        } else {
            before.slots@[i]
        }
}

impl Match {
    pub open spec fn wf(&self) -> bool {
        &&& self.slots@.len() == SLOT_COUNT
        &&& forall|i: int| 0 <= i < self.slots@.len() ==> (#[trigger] self.slots@[i]).wf()
    }

    /// A match hosted by `host_id`, who sits in the first slot, not ready yet;
    /// all other slots are free.
    pub fn new(
        id: u16,
        name: String,
        password: String,
        beatmap_name: String,
        beatmap_id: u32,
        beatmap_md5: String,
        host_id: i32,
    ) -> (r: Match)
        ensures
            r.wf(),
            r.id == id,
            r.name@ == name@,
            r.password@ == password@,
            r.beatmap_name@ == beatmap_name@,
            r.beatmap_id == beatmap_id,
            r.beatmap_md5@ == beatmap_md5@,
            r.host_id == host_id,
            !r.in_progress,
            r.mods == 0,
            r.game_mode == 0,
            r.scoring_type == ScoringType::Score,
            r.team_type == TeamType::HeadToHead,
            !r.freemod,
            r.slots@[0] == (Slot {
                status: SlotStatus::NotReady,
                team: Team::NoTeam,
                occupant: Some(host_id),
                mods: 0,
                skip: false,
            }),
            forall|i: int| 1 <= i < SLOT_COUNT ==> #[trigger] r.slots@[i] == Slot::free_spec(),
    {
        let mut slots: Vec<Slot> = Vec::new();
        slots.push(
            Slot {
                status: SlotStatus::NotReady,
                team: Team::NoTeam,
                occupant: Some(host_id),
                mods: 0,
                skip: false,
            },
        );
        let mut i: usize = 1;
        while i < SLOT_COUNT
            invariant
                1 <= i <= SLOT_COUNT,
                slots@.len() == i,
                slots@[0] == (Slot {
                    status: SlotStatus::NotReady,
                    team: Team::NoTeam,
                    occupant: Some(host_id),
                    mods: 0,
                    skip: false,
                }),
                forall|j: int| 1 <= j < i ==> #[trigger] slots@[j] == Slot::free_spec(),
            decreases SLOT_COUNT - i,
        {
            slots.push(Slot::free());
            i += 1;
        }
        Match {
            id,
            name,
            password,
            in_progress: false,
            mods: 0,
            beatmap_name,
            beatmap_id,
            beatmap_md5,
            host_id,
            game_mode: 0,
            scoring_type: ScoringType::Score,
            team_type: TeamType::HeadToHead,
            freemod: false,
            slots,
        }
    }

    /// Applies a settings change from `requester` as one update. Fails, and
    /// changes nothing, unless the requester is the host. When the mods or
    /// the beatmap checksum change, every ready slot goes back to not ready.
    pub fn change_settings(&mut self, requester: i32, s: &MatchSettings) -> (r: Result<(), MatchError>)
        requires
            old(self).wf(),
        ensures
            final(self).wf(),
            requester != old(self).host_id ==> r == Err::<(), MatchError>(MatchError::NotHost)
                && *final(self) == *old(self),
            requester == old(self).host_id ==> r is Ok && settings_changed(old(self), final(self), s),
    {
        if requester != self.host_id {
            return Err(MatchError::NotHost);
        }
        let reset = self.mods != s.mods || self.beatmap_md5 != s.beatmap_md5;
        let ghost before = *self;
        let mut slots: Vec<Slot> = Vec::new();
        let mut i: usize = 0;
        while i < self.slots.len()
            invariant
                i <= self.slots@.len(),
                *self == before,
                slots@.len() == i,
                forall|j: int|
                    0 <= j < i ==> #[trigger] slots@[j] == if reset && before.slots@[j].status
                        == SlotStatus::Ready {
                        Slot { status: SlotStatus::NotReady, ..before.slots@[j] }
                    } else {
                        before.slots@[j]
                    },
            decreases self.slots@.len() - i,
        {
            let mut slot = self.slots[i];
            if reset && slot.status == SlotStatus::Ready {
                slot.status = SlotStatus::NotReady;
            }
            slots.push(slot);
            i += 1;
        }
        self.name = s.name.clone();
        self.in_progress = s.in_progress;
        self.beatmap_name = s.beatmap_name.clone();
        self.beatmap_md5 = s.beatmap_md5.clone();
        self.beatmap_id = s.beatmap_id;
        self.game_mode = s.game_mode;
        self.mods = s.mods;
        self.scoring_type = s.scoring_type;
        self.team_type = s.team_type;
        self.freemod = s.freemod;
        self.slots = slots;
        proof {
            assert forall|j: int| 0 <= j < self.slots@.len() implies (#[trigger] self.slots@[j]).wf() by {
                assert(before.slots@[j].wf());
            }
        }
        Ok(())
    }

    /// One status byte per slot, in slot order.
    pub fn slot_statuses(&self) -> (r: Vec<u8>)
        ensures
            r@ == Seq::new(self.slots@.len(), |i: int| status_code(self.slots@[i].status)),
    {
        let mut out: Vec<u8> = Vec::new();
        let mut i: usize = 0;
        while i < self.slots.len()
            invariant
                i <= self.slots@.len(),
                out@ == Seq::new(i as nat, |j: int| status_code(self.slots@[j].status)),
            decreases self.slots@.len() - i,
        {
            out.push(self.slots[i].status.code());
            i += 1;
            assert(out@ =~= Seq::new(i as nat, |j: int| status_code(self.slots@[j].status)));
        }
        out
    }

    /// One team byte per slot, in slot order.
    pub fn slot_teams(&self) -> (r: Vec<u8>)
        ensures
            r@ == Seq::new(self.slots@.len(), |i: int| team_code(self.slots@[i].team)),
    {
        let mut out: Vec<u8> = Vec::new();
        let mut i: usize = 0;
        while i < self.slots.len()
            invariant
                i <= self.slots@.len(),
                out@ == Seq::new(i as nat, |j: int| team_code(self.slots@[j].team)),
            decreases self.slots@.len() - i,
        {
            out.push(self.slots[i].team.code());
            i += 1;
            assert(out@ =~= Seq::new(i as nat, |j: int| team_code(self.slots@[j].team)));
        }
        out
    }

    /// Four id bytes for each occupied slot, in slot order, nothing for the others.
    pub fn slot_ids(&self) -> (r: Vec<u8>)
        ensures
            r@ == slot_ids_spec(self.slots@),
    {
        let mut out: Vec<u8> = Vec::new();
        let mut i: usize = 0;
        while i < self.slots.len()
            invariant
                i <= self.slots@.len(),
                out@ == slot_ids_spec(self.slots@.take(i as int)),
            decreases self.slots@.len() - i,
        {
            let slot = self.slots[i];
            if slot.status.is_occupied() {
                match slot.occupant {
                    Some(id) => encode_i32(id, &mut out),
                    None => {},
                }
            }
            proof {
                assert(self.slots@.take(i + 1).drop_last() =~= self.slots@.take(i as int));
            }
            i += 1;
            assert(out@ =~= slot_ids_spec(self.slots@.take(i as int)));
        }
        assert(self.slots@.take(i as int) =~= self.slots@);
        out
    }

    /// Under freemod, four mod bytes per slot in slot order; else nothing.
    pub fn slot_mods(&self) -> (r: Vec<u8>)
        ensures
            r@ == if self.freemod {
                slot_mods_spec(self.slots@)
            } else {
                Seq::empty()
            },
    {
        let mut out: Vec<u8> = Vec::new();
        if !self.freemod {
            return out;
        }
        let mut i: usize = 0;
        while i < self.slots.len()
            invariant
                i <= self.slots@.len(),
                out@ == slot_mods_spec(self.slots@.take(i as int)),
            decreases self.slots@.len() - i,
        {
            encode_u32(self.slots[i].mods, &mut out);
            proof {
                assert(self.slots@.take(i + 1).drop_last() =~= self.slots@.take(i as int));
            }
            i += 1;
            assert(out@ =~= slot_mods_spec(self.slots@.take(i as int)));
        }
        assert(self.slots@.take(i as int) =~= self.slots@);
        out
    }
}

impl Slot {
    pub open spec fn free_spec() -> Slot {
        Slot { status: SlotStatus::Free, team: Team::NoTeam, occupant: None, mods: 0, skip: false }
    }
}

/// A non-host request leaves the match exactly as it was, and the host's
/// change demotes every ready slot when the mods or beatmap checksum change.
pub proof fn lemma_change_settings_outcomes(before: Match, after: Match, s: MatchSettings, i: int)
    requires
        settings_changed(&before, &after, &s),
        0 <= i < before.slots@.len(),
        before.mods != s.mods || before.beatmap_md5@ != s.beatmap_md5@,
    ensures
        before.slots@[i].status == SlotStatus::Ready ==> after.slots@[i].status
            == SlotStatus::NotReady,
        after.slots@[i].status != SlotStatus::Ready,
        after.mods == s.mods && after.beatmap_md5@ == s.beatmap_md5@,
{
}

/// No slot of any match holds `id`.
pub open spec fn slots_freed(before: Seq<Match>, after: Seq<Match>, id: i32) -> bool {
    &&& after.len() == before.len()
    &&& forall|i: int, j: int| 0 <= i < after.len() && 0 <= j < after[i].slots@.len()
        ==> #[trigger] after[i].slots@[j].occupant != Some(id)
    &&& forall|i: int| 0 <= i < before.len() ==> same_but_slots(&before[i], &(#[trigger] after[i]))
        && after[i].slots@.len() == before[i].slots@.len()
    &&& forall|i: int, j: int| 0 <= i < before.len() && 0 <= j < before[i].slots@.len()
        ==> #[trigger] after[i].slots@[j] == if before[i].slots@[j].occupant == Some(id) {
            Slot::free_spec()
        } else {
            before[i].slots@[j]
        }
}

/// All matches, with distinct ids handed out in increasing order.
pub struct MatchList {
    list: Vec<Match>,
    next_id: u16,
}

impl View for MatchList {
    type V = Seq<Match>;

    closed spec fn view(&self) -> Seq<Match> {
        self.list@
    }
}

impl MatchList {
    /// The id the next match will get; `None` once all are used.
    pub closed spec fn spec_next_id(&self) -> Option<u16> {
        if self.list@.len() == 0 && self.next_id == 0 {
            Some(0)
        } else if self.next_id == 0 {
            None
        } else {
            Some(self.next_id)
        }
    }

    pub closed spec fn wf(&self) -> bool {
        &&& forall|i: int| 0 <= i < self.list@.len() ==> (#[trigger] self.list@[i]).wf()
        &&& forall|i: int|
            0 <= i < self.list@.len() ==> (#[trigger] self.list@[i]).id as int == i
        &&& self.list@.len() <= u16::MAX + 1
        &&& (self.list@.len() <= u16::MAX ==> self.next_id == self.list@.len())
        &&& (self.list@.len() == u16::MAX + 1 ==> self.next_id == 0)
    }

    pub fn new() -> (r: MatchList)
        ensures
            r.wf(),
            r@.len() == 0,
    {
        MatchList { list: Vec::new(), next_id: 0 }
    }

    pub fn len(&self) -> (r: usize)
        ensures
            r == self@.len(),
    {
        self.list.len()
    }

    /// Every match of a well-formed list is well formed, and its id is its place.
    pub proof fn lemma_wf_item(&self, i: int)
        requires
            self.wf(),
            0 <= i < self@.len(),
        ensures
            self@[i].wf(),
            self@[i].id as int == i,
    {
        assert(self.list@[i].wf());
    }

    pub fn at(&self, i: usize) -> (r: &Match)
        requires
            i < self@.len(),
        ensures
            *r == self@[i as int],
    {
        &self.list[i]
    }

    /// The position of the match with id `id`.
    pub fn find(&self, id: u16) -> (r: Option<usize>)
        requires
            self.wf(),
        ensures
            r matches Some(i) ==> i < self@.len() && self@[i as int].id == id,
            r is None ==> forall|j: int| 0 <= j < self@.len() ==> self@[j].id != id,
    {
        if (id as usize) < self.list.len() {
            Some(id as usize)
        } else {
            proof {
                assert forall|j: int| 0 <= j < self@.len() implies self@[j].id != id by {
                    assert(self.list@[j].id as int == j);
                }
            }
            None
        }
    }

    /// Creates a match hosted by `host_id` under the next free id; see
    /// `Match::new`. Fails once every id is taken.
    pub fn create(
        &mut self,
        name: String,
        password: String,
        beatmap_name: String,
        beatmap_id: u32,
        beatmap_md5: String,
        host_id: i32,
    ) -> (r: Result<usize, MatchError>)
        requires
            old(self).wf(),
        ensures
            final(self).wf(),
            r is Err ==> r == Err::<usize, MatchError>(MatchError::NoFreeId) && final(self)@ == old(self)@,
            r matches Ok(i) ==> i == old(self)@.len() && final(self)@.len() == i + 1
                && final(self)@.take(i as int) == old(self)@ && {
                let m = final(self)@[i as int];
                &&& m.id as int == i
                &&& m.name@ == name@
                &&& m.password@ == password@
                &&& m.beatmap_name@ == beatmap_name@
                &&& m.beatmap_id == beatmap_id
                &&& m.beatmap_md5@ == beatmap_md5@
                &&& m.host_id == host_id
                &&& m.slots@[0].status == SlotStatus::NotReady
                &&& m.slots@[0].occupant == Some(host_id)
                &&& forall|j: int| 1 <= j < SLOT_COUNT ==> #[trigger] m.slots@[j] == Slot::free_spec()
            },
            r is Err <==> old(self)@.len() > u16::MAX,
    {
        if self.list.len() > u16::MAX as usize {
            return Err(MatchError::NoFreeId);
        }
        let id = self.list.len() as u16;
        let m = Match::new(id, name, password, beatmap_name, beatmap_id, beatmap_md5, host_id);
        let n = self.list.len();
        self.list.push(m);
        self.next_id = if id == u16::MAX { 0 } else { id + 1 };
        assert(self.list@.take(n as int) =~= old(self).list@);
        Ok(n)
    }

    /// Mutable access to the match at position `i`, for changes that keep it
    /// well formed and keep its id.
    pub fn match_mut(&mut self, i: usize) -> (r: &mut Match)
        requires
            old(self).wf(),
            i < old(self)@.len(),
        ensures
            *r == old(self)@[i as int],
            final(self)@ == old(self)@.update(i as int, *final(r)),
            final(r).wf() && final(r).id == old(self)@[i as int].id ==> final(self).wf(),
    {
        &mut self.list[i]
    }

    /// Frees every slot that `id` occupies, in every match.
    pub fn release_all(&mut self, id: i32)
        requires
            old(self).wf(),
        ensures
            final(self).wf(),
            slots_freed(old(self)@, final(self)@, id),
    {
        let mut i: usize = 0;
        while i < self.list.len()
            invariant
                self.wf(),
                i <= self@.len(),
                self@.len() == old(self)@.len(),
                forall|a: int, j: int| 0 <= a < i && 0 <= j < self@[a].slots@.len()
                    ==> #[trigger] self@[a].slots@[j].occupant != Some(id),
                forall|a: int| i <= a < self@.len() ==> #[trigger] self@[a] == old(self)@[a],
                forall|a: int| 0 <= a < i ==> same_but_slots(&old(self)@[a], &(#[trigger] self@[a]))
                    && self@[a].slots@.len() == old(self)@[a].slots@.len(),
                forall|a: int, j: int| 0 <= a < i && 0 <= j < old(self)@[a].slots@.len()
                    ==> #[trigger] self@[a].slots@[j] == if old(self)@[a].slots@[j].occupant == Some(id) {
                        Slot::free_spec()
                    } else {
                        old(self)@[a].slots@[j]
                    },
            decreases self@.len() - i,
        {
            let m = self.match_mut(i);
            m.release(id);
            i += 1;
        }
    }
}

impl Match {
    /// Frees every slot that `id` occupies.
    pub fn release(&mut self, id: i32)
        requires
            old(self).wf(),
        ensures
            final(self).wf(),
            final(self).id == old(self).id,
            final(self).host_id == old(self).host_id,
            final(self).slots@.len() == old(self).slots@.len(),
            forall|j: int| 0 <= j < final(self).slots@.len() ==> #[trigger] final(self).slots@[j].occupant != Some(id),
            forall|j: int| 0 <= j < old(self).slots@.len() ==> #[trigger] final(self).slots@[j]
                == if old(self).slots@[j].occupant == Some(id) { Slot::free_spec() } else { old(self).slots@[j] },
            same_but_slots(old(self), final(self)),
    {
        let mut i: usize = 0;
        while i < self.slots.len()
            invariant
                self.wf(),
                self.id == old(self).id,
                self.host_id == old(self).host_id,
                i <= self.slots@.len(),
                self.slots@.len() == old(self).slots@.len(),
                forall|j: int| 0 <= j < i ==> #[trigger] self.slots@[j].occupant != Some(id),
                forall|j: int| 0 <= j < i ==> #[trigger] self.slots@[j]
                    == if old(self).slots@[j].occupant == Some(id) { Slot::free_spec() } else { old(self).slots@[j] },
                forall|j: int| i <= j < self.slots@.len() ==> self.slots@[j] == old(self).slots@[j],
                same_but_slots(old(self), self),
            decreases self.slots@.len() - i,
        {
            if self.slots[i].occupant == Some(id) {
                self.slots.set(i, Slot::free());
            }
            i += 1;
        }
    }


    /// Empties slot `j`.
    pub fn reset_slot(&mut self, j: usize)
        requires
            old(self).wf(),
            j < old(self).slots@.len(),
        ensures
            final(self).wf(),
            final(self).id == old(self).id,
            final(self).host_id == old(self).host_id,
            final(self).slots@ == old(self).slots@.update(j as int, Slot::free_spec()),
            same_but_slots(old(self), final(self)),
    {
        self.slots.set(j, Slot::free());
        proof {
            assert forall|i: int| 0 <= i < self.slots@.len() implies (#[trigger] self.slots@[i]).wf() by {
                if i != j {
                    assert(old(self).slots@[i].wf());
                }
            }
        }
    }


    /// Seats `id` in the first free slot, not ready yet. Says whether there
    /// was a free slot; without one nothing changes.
    pub fn user_join(&mut self, id: i32) -> (r: bool)
        requires
            old(self).wf(),
        ensures
            final(self).wf(),
            same_but_slots(old(self), final(self)),
            r <==> exists|j: int| 0 <= j < old(self).slots@.len() && (#[trigger] old(self).slots@[j]).status == SlotStatus::Free,
            !r ==> final(self).slots@ == old(self).slots@,
            r ==> exists|j: int| 0 <= j < old(self).slots@.len() && {
                &&& (#[trigger] old(self).slots@[j]).status == SlotStatus::Free
                &&& forall|k: int| 0 <= k < j ==> #[trigger] old(self).slots@[k].status != SlotStatus::Free
                &&& final(self).slots@ == old(self).slots@.update(j, Slot { status: SlotStatus::NotReady, occupant: Some(id), ..old(self).slots@[j] })
            },
    {
        let mut i: usize = 0;
        while i < self.slots.len()
            invariant
                *self == *old(self),
                self.wf(),
                i <= self.slots@.len(),
                forall|k: int| 0 <= k < i ==> #[trigger] self.slots@[k].status != SlotStatus::Free,
            decreases self.slots@.len() - i,
        {
            if self.slots[i].status == SlotStatus::Free {
                let mut slot = self.slots[i];
                slot.status = SlotStatus::NotReady;
                slot.occupant = Some(id);
                self.slots.set(i, slot);
                proof {
                    assert forall|k: int| 0 <= k < self.slots@.len() implies (#[trigger] self.slots@[k]).wf() by {
                        if k != i {
                            assert(old(self).slots@[k].wf());
                        }
                    }
                }
                return true;
            }
            i += 1;
        }
        false
    }

}

} // verus!
