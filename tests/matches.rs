use isoku::frame::{parse_packet, ClientId, FrameError};
use isoku::matches::{Match, MatchError, MatchList, MatchSettings, ScoringType, SlotStatus, TeamType};
use isoku::packets;
use isoku::settings::decode_settings;

fn new_match() -> Match {
    Match::new(
        3,
        "room".to_string(),
        String::new(),
        "song".to_string(),
        77,
        "md5".to_string(),
        100,
    )
}

fn settings(mods: u32, md5: &str) -> MatchSettings {
    MatchSettings {
        id: 3,
        in_progress: false,
        match_type: 0,
        mods,
        name: "renamed".to_string(),
        password: String::new(),
        beatmap_name: "song".to_string(),
        beatmap_id: 77,
        beatmap_md5: md5.to_string(),
        slot_statuses: Vec::new(),
        slot_teams: Vec::new(),
        slot_ids: Vec::new(),
        host_id: 100,
        game_mode: 0,
        scoring_type: ScoringType::Accuracy,
        team_type: TeamType::TeamVs,
        freemod: false,
        slot_mods: None,
        seed: 0,
    }
}

#[test]
fn creator_sits_first_and_hosts() {
    let m = new_match();
    assert_eq!(m.slots.len(), 16);
    assert_eq!(m.slots[0].status, SlotStatus::NotReady);
    assert_eq!(m.slots[0].occupant, Some(100));
    assert_eq!(m.host_id, 100);
    assert!(m.slots[1..].iter().all(|s| s.status == SlotStatus::Free && s.occupant.is_none()));
}

#[test]
fn non_host_change_is_refused() {
    let mut m = new_match();
    assert_eq!(m.change_settings(101, &settings(8, "other")), Err(MatchError::NotHost));
    assert_eq!(m.name, "room");
    assert_eq!(m.mods, 0);
}

#[test]
fn mods_change_demotes_ready_slots() {
    let mut m = new_match();
    m.slots[0].status = SlotStatus::Ready;
    m.slots[1].status = SlotStatus::Ready;
    m.slots[1].occupant = Some(101);
    m.change_settings(100, &settings(8, "md5")).unwrap();
    assert_eq!(m.slots[0].status, SlotStatus::NotReady);
    assert_eq!(m.slots[1].status, SlotStatus::NotReady);
    assert_eq!(m.mods, 8);
    assert_eq!(m.name, "renamed");
    assert_eq!(m.scoring_type, ScoringType::Accuracy);
}

#[test]
fn unchanged_map_keeps_ready_slots() {
    let mut m = new_match();
    m.slots[0].status = SlotStatus::Ready;
    m.change_settings(100, &settings(0, "md5")).unwrap();
    assert_eq!(m.slots[0].status, SlotStatus::Ready);
    assert_eq!(m.name, "renamed");
}

#[test]
fn slot_ids_list_only_occupied_slots() {
    let mut m = new_match();
    m.slots[5].status = SlotStatus::NoMap;
    m.slots[5].occupant = Some(0x0102);
    assert_eq!(m.slot_ids(), vec![100, 0, 0, 0, 2, 1, 0, 0]);
    assert_eq!(m.slot_statuses()[0], 4);
    assert_eq!(m.slot_statuses()[1], 1);
    assert!(m.slot_mods().is_empty());
    m.freemod = true;
    assert_eq!(m.slot_mods().len(), 64);
}

#[test]
fn occupied_is_a_mask_test() {
    assert!(!SlotStatus::Free.is_occupied());
    assert!(!SlotStatus::Locked.is_occupied());
    assert!(SlotStatus::NotReady.is_occupied());
    assert!(SlotStatus::PlayingQuit.is_occupied());
}

#[test]
fn match_data_decodes_as_settings() {
    let mut m = new_match();
    m.slots[2].status = SlotStatus::Ready;
    m.slots[2].occupant = Some(55);
    m.freemod = true;
    m.slots[2].mods = 9;
    let data = packets::match_data(&m);
    let s = decode_settings(&data).unwrap();
    assert_eq!(s.id, 3);
    assert_eq!(s.name, "room");
    assert_eq!(s.beatmap_md5, "md5");
    assert_eq!(s.slot_ids[0], 100);
    assert_eq!(s.slot_ids[1], -1);
    assert_eq!(s.slot_ids[2], 55);
    assert_eq!(s.host_id, 100);
    assert!(s.freemod);
    assert_eq!(s.slot_mods.unwrap()[2], 9);
}

#[test]
fn blank_match_name_is_refused() {
    let m = Match::new(1, "   ".to_string(), String::new(), String::new(), 0, String::new(), 1);
    assert!(decode_settings(&packets::match_data(&m)).is_err());
}

#[test]
fn short_header_is_an_error() {
    assert_eq!(parse_packet(&[4, 0, 0, 0, 0, 0]), Err(FrameError::ShortHeader));
}

#[test]
fn overlong_payload_is_an_error() {
    assert_eq!(parse_packet(&[4, 0, 0, 2, 0, 0, 0, 1]), Err(FrameError::PayloadOverrun));
}

#[test]
fn header_is_read() {
    assert_eq!(parse_packet(&[4, 0, 0, 1, 0, 0, 0, 9]), Ok((ClientId::Pong, 1)));
    assert_eq!(parse_packet(&[0xe7, 3, 0, 0, 0, 0, 0]), Ok((ClientId::Unknown(999), 0)));
}

#[test]
fn padded_match_name_is_trimmed() {
    let m = Match::new(1, "  room ".to_string(), String::new(), String::new(), 0, String::new(), 1);
    let s = decode_settings(&packets::match_data(&m)).unwrap();
    assert_eq!(s.name, "room");
}

#[test]
fn joining_takes_the_first_free_slot() {
    let mut m = new_match();
    m.slots[1].status = SlotStatus::Locked;
    assert!(m.user_join(200));
    assert_eq!(m.slots[2].status, SlotStatus::NotReady);
    assert_eq!(m.slots[2].occupant, Some(200));
    assert_eq!(m.slots[1].status, SlotStatus::Locked);
}

#[test]
fn full_match_refuses_a_join() {
    let mut m = new_match();
    for s in m.slots.iter_mut().skip(1) {
        s.status = SlotStatus::Locked;
    }
    assert!(!m.user_join(200));
}

#[test]
fn match_ids_run_out_after_every_u16() {
    let mut list = MatchList::new();
    for i in 0..=u16::MAX as usize {
        let at = list
            .create(String::new(), String::new(), String::new(), 0, String::new(), 1)
            .unwrap();
        assert_eq!(at, i);
    }
    assert_eq!(list.at(65535).id, u16::MAX);
    assert_eq!(
        list.create(String::new(), String::new(), String::new(), 0, String::new(), 1),
        Err(MatchError::NoFreeId)
    );
}
