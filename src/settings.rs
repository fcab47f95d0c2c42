//! Decoding the match settings that clients send, field by field; which
//! fields follow depends on the slot statuses and freemod flag read before.
use vstd::prelude::*;
use crate::codec::{
    i32_at, spec_bool, spec_i32, spec_str, spec_u16, spec_u32, spec_u8, DecodeError,
};
use crate::cursor::{lossy_utf8, Cursor};
use crate::matches::{
    occupied, scoring_of, status_of, team_of, team_type_of, MatchSettings, ScoringType, SlotStatus,
    Team, TeamType, SLOT_COUNT,
};

verus! {

/// Unicode's White_Space property: the characters `str::trim` removes.
pub open spec fn is_white_space(c: char) -> bool {
    let n = c as u32;
    (0x09 <= n && n <= 0x0d) || n == 0x20 || n == 0x85 || n == 0xa0 || n == 0x1680
        || (0x2000 <= n && n <= 0x200a) || n == 0x2028 || n == 0x2029 || n == 0x202f
        || n == 0x205f || n == 0x3000
}

/// `s` without its leading white space.
pub open spec fn trim_start(s: Seq<char>) -> Seq<char>
    decreases s.len(),
{
    if s.len() > 0 && is_white_space(s[0]) {
        trim_start(s.drop_first())
    } else {
        s
    }
}

/// `s` without its trailing white space.
pub open spec fn trim_end(s: Seq<char>) -> Seq<char>
    decreases s.len(),
{
    if s.len() > 0 && is_white_space(s.last()) {
        trim_end(s.drop_last())
    } else {
        s
    }
}

/// `s` without leading and trailing white space.
pub open spec fn trimmed(s: Seq<char>) -> Seq<char> {
    trim_end(trim_start(s))
}

/// Relies on `str::trim`: the string without leading and trailing
/// characters of Unicode's White_Space property.
#[verifier::external_body]
fn trim(s: &str) -> (r: &str)
    ensures
        r@ == trimmed(s@),
{
    s.trim()
}

pub open spec fn p_u8(b: Seq<u8>) -> Option<(u8, Seq<u8>)> {
    match spec_u8(b) {
        Some(v) => Some((v, b.skip(1))),
        None => None,
    }
}

pub open spec fn p_bool(b: Seq<u8>) -> Option<(bool, Seq<u8>)> {
    match spec_bool(b) {
        Some(v) => Some((v, b.skip(1))),
        None => None,
    }
}

pub open spec fn p_u16(b: Seq<u8>) -> Option<(u16, Seq<u8>)> {
    match spec_u16(b) {
        Some(v) => Some((v, b.skip(2))),
        None => None,
    }
}

pub open spec fn p_u32(b: Seq<u8>) -> Option<(u32, Seq<u8>)> {
    match spec_u32(b) {
        Some(v) => Some((v, b.skip(4))),
        None => None,
    }
}

pub open spec fn p_i32(b: Seq<u8>) -> Option<(i32, Seq<u8>)> {
    match spec_i32(b) {
        Some(v) => Some((v, b.skip(4))),
        None => None,
    }
}

/// The raw bytes of a string field.
pub open spec fn p_str(b: Seq<u8>) -> Option<(Seq<u8>, Seq<u8>)> {
    match spec_str(b) {
        Some((s, k)) => Some((s, b.skip(k as int))),
        None => None,
    }
}

/// The settings fields that come before the slots, strings as raw bytes.
pub struct SettingsHead {
    pub id: u16,
    pub in_progress: bool,
    pub match_type: u8,
    pub mods: u32,
    pub name: Seq<u8>,
    pub password: Seq<u8>,
    pub beatmap_name: Seq<u8>,
    pub beatmap_id: u32,
    pub beatmap_md5: Seq<u8>,
}

/// A match name, once decoded, has something besides white space.
pub open spec fn name_ok(name: Seq<u8>) -> bool {
    trimmed(lossy_utf8(name)).len() > 0
}

pub open spec fn head_spec(b: Seq<u8>) -> Option<(SettingsHead, Seq<u8>)> {
    match p_u16(b) {
        None => None,
        Some((id, b)) => match p_bool(b) {
            None => None,
            Some((in_progress, b)) => match p_u8(b) {
                None => None,
                Some((match_type, b)) => match p_u32(b) {
                    None => None,
                    Some((mods, b)) => match p_str(b) {
                        None => None,
                        Some((name, b)) => if !name_ok(name) {
                            None
                        } else {
                            match p_str(b) {
                                None => None,
                                Some((password, b)) => match p_str(b) {
                                    None => None,
                                    Some((beatmap_name, b)) => match p_u32(b) {
                                        None => None,
                                        Some((beatmap_id, b)) => match p_str(b) {
                                            None => None,
                                            Some((beatmap_md5, b)) => Some(
                                                (
                                                    SettingsHead {
                                                        id,
                                                        in_progress,
                                                        match_type,
                                                        mods,
                                                        name,
                                                        password,
                                                        beatmap_name,
                                                        beatmap_id,
                                                        beatmap_md5,
                                                    },
                                                    b,
                                                ),
                                            ),
                                        },
                                    },
                                },
                            }
                        },
                    },
                },
            },
        },
    }
}

/// Sixteen status bytes, each a known status.
pub open spec fn statuses_spec(b: Seq<u8>) -> Option<(Seq<SlotStatus>, Seq<u8>)> {
    if b.len() >= SLOT_COUNT && forall|i: int| 0 <= i < SLOT_COUNT ==> #[trigger] status_of(b[i]) is Some {
        Some((Seq::new(SLOT_COUNT as nat, |i: int| status_of(b[i])->Some_0), b.skip(SLOT_COUNT as int)))
    } else {
        None
    }
}

/// Sixteen team bytes, each a known team.
pub open spec fn teams_spec(b: Seq<u8>) -> Option<(Seq<Team>, Seq<u8>)> {
    if b.len() >= SLOT_COUNT && forall|i: int| 0 <= i < SLOT_COUNT ==> #[trigger] team_of(b[i]) is Some {
        Some((Seq::new(SLOT_COUNT as nat, |i: int| team_of(b[i])->Some_0), b.skip(SLOT_COUNT as int)))
    } else {
        None
    }
}

/// One id per occupied status, `-1` standing for each other slot.
pub open spec fn ids_spec(st: Seq<SlotStatus>, b: Seq<u8>) -> Option<(Seq<i32>, Seq<u8>)>
    decreases st.len(),
{
    if st.len() == 0 {
        Some((Seq::empty(), b))
    } else if occupied(st[0]) {
        match p_i32(b) {
            None => None,
            Some((v, b)) => match ids_spec(st.drop_first(), b) {
                None => None,
                Some((rest, b)) => Some((seq![v] + rest, b)),
            },
        }
    } else {
        match ids_spec(st.drop_first(), b) {
            None => None,
            Some((rest, b)) => Some((seq![-1i32] + rest, b)),
        }
    }
}

/// Sixteen four-byte mods.
pub open spec fn mods_spec(b: Seq<u8>) -> Option<(Seq<i32>, Seq<u8>)> {
    if b.len() >= 4 * SLOT_COUNT {
        Some((Seq::new(SLOT_COUNT as nat, |j: int| i32_at(seq![0u8, 0u8] + b, j)), b.skip(4 * SLOT_COUNT as int)))
    } else {
        None
    }
}

/// The fields after the slot ids.
pub struct SettingsTail {
    pub host_id: i32,
    pub game_mode: u8,
    pub scoring_type: ScoringType,
    pub team_type: TeamType,
    pub freemod: bool,
    pub slot_mods: Option<Seq<i32>>,
    pub seed: i32,
}

pub open spec fn tail_spec(b: Seq<u8>) -> Option<SettingsTail> {
    match p_i32(b) {
        None => None,
        Some((host_id, b)) => match p_u8(b) {
            None => None,
            Some((game_mode, b)) => match p_u8(b) {
                None => None,
                Some((sc, b)) => match scoring_of(sc) {
                    None => None,
                    Some(scoring_type) => match p_u8(b) {
                        None => None,
                        Some((tt, b)) => match team_type_of(tt) {
                            None => None,
                            Some(team_type) => match p_bool(b) {
                                None => None,
                                Some((freemod, b)) => {
                                    let m = if freemod {
                                        match mods_spec(b) {
                                            Some((v, rest)) => Some((Some(v), rest)),
                                            None => None,
                                        }
                                    } else {
                                        Some((None, b))
                                    };
                                    match m {
                                        None => None,
                                        Some((slot_mods, b)) => match p_i32(b) {
                                            None => None,
                                            Some((seed, _)) => Some(
                                                SettingsTail {
                                                    host_id,
                                                    game_mode,
                                                    scoring_type,
                                                    team_type,
                                                    freemod,
                                                    slot_mods,
                                                    seed,
                                                },
                                            ),
                                        },
                                    }
                                },
                            },
                        },
                    },
                },
            },
        },
    }
}

/// A whole settings payload, as raw fields.
pub struct SettingsWire {
    pub head: SettingsHead,
    pub statuses: Seq<SlotStatus>,
    pub teams: Seq<Team>,
    pub ids: Seq<i32>,
    pub tail: SettingsTail,
}

pub open spec fn settings_spec(b: Seq<u8>) -> Option<SettingsWire> {
    match head_spec(b) {
        None => None,
        Some((head, b)) => match statuses_spec(b) {
            None => None,
            Some((statuses, b)) => match teams_spec(b) {
                None => None,
                Some((teams, b)) => match ids_spec(statuses, b) {
                    None => None,
                    Some((ids, b)) => match tail_spec(b) {
                        None => None,
                        Some(tail) => Some(SettingsWire { head, statuses, teams, ids, tail }),
                    },
                },
            },
        },
    }
}

/// The decoded settings hold the payload's fields; strings are decoded
/// lossily and the name is trimmed.
pub open spec fn settings_from_wire(s: &MatchSettings, w: SettingsWire) -> bool {
    &&& s.id == w.head.id
    &&& s.in_progress == w.head.in_progress
    &&& s.match_type == w.head.match_type
    &&& s.mods == w.head.mods
    &&& s.name@ == trimmed(lossy_utf8(w.head.name))
    &&& s.password@ == lossy_utf8(w.head.password)
    &&& s.beatmap_name@ == lossy_utf8(w.head.beatmap_name)
    &&& s.beatmap_id == w.head.beatmap_id
    &&& s.beatmap_md5@ == lossy_utf8(w.head.beatmap_md5)
    &&& s.slot_statuses@ == w.statuses
    &&& s.slot_teams@ == w.teams
    &&& s.slot_ids@ == w.ids
    &&& s.host_id == w.tail.host_id
    &&& s.game_mode == w.tail.game_mode
    &&& s.scoring_type == w.tail.scoring_type
    &&& s.team_type == w.tail.team_type
    &&& s.freemod == w.tail.freemod
    &&& match (s.slot_mods, w.tail.slot_mods) {
        (Some(v), Some(m)) => v@ == m,
        (None, None) => true,
        _ => false,
    }
    &&& s.seed == w.tail.seed
}

fn read_statuses(c: &mut Cursor) -> (r: Result<Vec<SlotStatus>, DecodeError>)
    ensures
        match statuses_spec(old(c)@) {
            Some((v, rest)) => r is Ok && r->Ok_0@ == v && final(c)@ == rest,
            None => r is Err,
        },
{
    let b = c.read(SLOT_COUNT)?;
    let mut out: Vec<SlotStatus> = Vec::new();
    let mut i: usize = 0;
    while i < SLOT_COUNT
        invariant
            b@ == old(c)@.take(SLOT_COUNT as int),
            b@.len() == SLOT_COUNT,
            old(c)@.len() >= SLOT_COUNT,
            c@ == old(c)@.skip(SLOT_COUNT as int),
            i <= SLOT_COUNT,
            out@.len() == i,
            forall|j: int| 0 <= j < i ==> status_of(b@[j]) == Some(#[trigger] out@[j]),
        decreases SLOT_COUNT - i,
    {
        match SlotStatus::from_u8(b[i]) {
            Some(s) => out.push(s),
            None => {
                return Err(DecodeError::BadValue);
            },
        }
        i += 1;
    }
    assert forall|j: int| 0 <= j < SLOT_COUNT implies #[trigger] status_of(old(c)@[j]) == Some(out@[j]) by {
        assert(b@[j] == old(c)@[j]);
    }
    assert(out@ =~= Seq::new(SLOT_COUNT as nat, |j: int| status_of(old(c)@[j])->Some_0));
    Ok(out)
}

fn read_teams(c: &mut Cursor) -> (r: Result<Vec<Team>, DecodeError>)
    ensures
        match teams_spec(old(c)@) {
            Some((v, rest)) => r is Ok && r->Ok_0@ == v && final(c)@ == rest,
            None => r is Err,
        },
{
    let b = c.read(SLOT_COUNT)?;
    let mut out: Vec<Team> = Vec::new();
    let mut i: usize = 0;
    while i < SLOT_COUNT
        invariant
            b@ == old(c)@.take(SLOT_COUNT as int),
            b@.len() == SLOT_COUNT,
            old(c)@.len() >= SLOT_COUNT,
            c@ == old(c)@.skip(SLOT_COUNT as int),
            i <= SLOT_COUNT,
            out@.len() == i,
            forall|j: int| 0 <= j < i ==> team_of(b@[j]) == Some(#[trigger] out@[j]),
        decreases SLOT_COUNT - i,
    {
        match Team::from_u8(b[i]) {
            Some(t) => out.push(t),
            None => {
                return Err(DecodeError::BadValue);
            },
        }
        i += 1;
    }
    assert forall|j: int| 0 <= j < SLOT_COUNT implies #[trigger] team_of(old(c)@[j]) == Some(out@[j]) by {
        assert(b@[j] == old(c)@[j]);
    }
    assert(out@ =~= Seq::new(SLOT_COUNT as nat, |j: int| team_of(old(c)@[j])->Some_0));
    Ok(out)
}

/// Joins decoded ids to what the rest of the slots give.
pub open spec fn ids_after(prefix: Seq<i32>, rest: Option<(Seq<i32>, Seq<u8>)>) -> Option<(Seq<i32>, Seq<u8>)> {
    match rest {
        Some((v, b)) => Some((prefix + v, b)),
        None => None,
    }
}

fn read_ids(c: &mut Cursor, st: &Vec<SlotStatus>) -> (r: Result<Vec<i32>, DecodeError>)
    ensures
        match ids_spec(st@, old(c)@) {
            Some((v, rest)) => r is Ok && r->Ok_0@ == v && final(c)@ == rest,
            None => r is Err,
        },
{
    let mut out: Vec<i32> = Vec::new();
    let mut i: usize = 0;
    proof {
        assert(st@.skip(0) =~= st@);
        match ids_spec(st@, c@) {
            Some((v, b)) => {
                assert(out@ + v =~= v);
            },
            None => {},
        }
    }
    while i < st.len()
        invariant
            i <= st@.len(),
            ids_spec(st@, old(c)@) == ids_after(out@, ids_spec(st@.skip(i as int), c@)),
        decreases st@.len() - i,
    {
        let ghost before = c@;
        let ghost o = out@;
        assert(st@.skip(i as int).drop_first() =~= st@.skip(i + 1));
        if st[i].is_occupied() {
            let v = c.read_i32()?;
            out.push(v);
            assert(out@ =~= o + seq![v]);
        } else {
            out.push(-1);
            assert(out@ =~= o + seq![-1i32]);
        }
        proof {
            match ids_spec(st@.skip(i + 1), c@) {
                Some((v, b)) => {
                    assert(o + (seq![out@.last()] + v) =~= out@ + v);
                },
                None => {},
            }
        }
        i += 1;
    }
    assert(st@.skip(i as int).len() == 0);
    assert(out@ + Seq::<i32>::empty() =~= out@);
    Ok(out)
}

fn read_mods(c: &mut Cursor) -> (r: Result<Vec<i32>, DecodeError>)
    ensures
        match mods_spec(old(c)@) {
            Some((v, rest)) => r is Ok && r->Ok_0@ == v && final(c)@ == rest,
            None => r is Err,
        },
{
    let ghost start = c@;
    let mut out: Vec<i32> = Vec::new();
    let mut i: usize = 0;
    if c.remaining() < 4 * SLOT_COUNT {
        return Err(DecodeError::Truncated);
    }
    while i < SLOT_COUNT
        invariant
            i <= SLOT_COUNT,
            start.len() >= 4 * SLOT_COUNT,
            c@ == start.skip(4 * i),
            out@.len() == i,
            forall|j: int| 0 <= j < i ==> #[trigger] out@[j] == i32_at(seq![0u8, 0u8] + start, j),
        decreases SLOT_COUNT - i,
    {
        let ghost before = c@;
        let v = c.read_i32()?;
        proof {
            assert(before.take(4) =~= (seq![0u8, 0u8] + start).subrange(2 + 4 * i, 6 + 4 * i));
            assert(c@ =~= start.skip(4 * (i + 1)));
        }
        out.push(v);
        i += 1;
    }
    assert(out@ =~= Seq::new(SLOT_COUNT as nat, |j: int| i32_at(seq![0u8, 0u8] + start, j)));
    Ok(out)
}

/// Decodes a settings payload. Fails on truncated input, unknown status,
/// team, scoring or team-type codes, malformed strings, or a name that is
/// empty once trimmed.
pub fn decode_settings(data: &[u8]) -> (r: Result<MatchSettings, DecodeError>)
    ensures
        r is Ok <==> settings_spec(data@) is Some,
        r matches Ok(s) ==> settings_from_wire(&s, settings_spec(data@)->Some_0),
{
    let mut c = Cursor::new(data);
    let id = c.read_u16()?;
    let in_progress = c.read_bool()?;
    let match_type = c.read_u8()?;
    let mods = c.read_u32()?;
    let raw_name = c.read_string()?;
    let trimmed = trim(raw_name.as_str());
    if trimmed.unicode_len() == 0 {
        return Err(DecodeError::BadValue);
    }
    let name = trimmed.to_owned();
    let password = c.read_string()?;
    let beatmap_name = c.read_string()?;
    let beatmap_id = c.read_u32()?;
    let beatmap_md5 = c.read_string()?;
    let slot_statuses = read_statuses(&mut c)?;
    let slot_teams = read_teams(&mut c)?;
    let slot_ids = read_ids(&mut c, &slot_statuses)?;
    let host_id = c.read_i32()?;
    let game_mode = c.read_u8()?;
    let scoring_type = match ScoringType::from_u8(c.read_u8()?) {
        Some(t) => t,
        None => {
            return Err(DecodeError::BadValue);
        },
    };
    let team_type = match TeamType::from_u8(c.read_u8()?) {
        Some(t) => t,
        None => {
            return Err(DecodeError::BadValue);
        },
    };
    let freemod = c.read_bool()?;
    let slot_mods = if freemod {
        Some(read_mods(&mut c)?)
    } else {
        None
    };
    let seed = c.read_i32()?;
    Ok(
        MatchSettings {
            id,
            in_progress,
            match_type,
            mods,
            name,
            password,
            beatmap_name,
            beatmap_id,
            beatmap_md5,
            slot_statuses,
            slot_teams,
            slot_ids,
            host_id,
            game_mode,
            scoring_type,
            team_type,
            freemod,
            slot_mods,
            seed,
        },
    )
}

} // verus!
