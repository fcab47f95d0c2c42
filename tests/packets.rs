use isoku::cursor::{decode_i32, decode_u16};
use isoku::packets as p;

fn packet_test(buf: &[u8], expected_id: u16, expected_data: &[u8]) {
    let (id, off) = decode_u16(buf).unwrap();
    let buf = &buf[off + 1..];
    let (data_len, off) = decode_i32(buf).unwrap();
    assert_eq!(expected_id, id);
    assert_eq!(expected_data.len() as i32, data_len);
    assert_eq!(expected_data, &buf[off..]);
}

#[test]
fn silence_end() {
    let data = p::silence_end(0);
    packet_test(&data, p::SILENCE_END, &[0, 0, 0, 0])
}

#[test]
fn login_failed_carries_sentinel_id() {
    let data = p::login_failed();
    packet_test(&data, p::USER_ID, &[0xff, 0xff, 0xff, 0xff]);
    let data = p::login_error();
    packet_test(&data, p::USER_ID, &[0xfb, 0xff, 0xff, 0xff]);
}

#[test]
fn notification_wraps_a_string() {
    let data = p::notification("hi");
    packet_test(&data, p::NOTIFICATION, &[0x0b, 2, b'h', b'i']);
}

#[test]
fn login_banned_is_failure_then_notice() {
    let data = p::login_banned();
    let mut expected = p::login_failed();
    expected.extend(p::notification("You have been banned"));
    assert_eq!(data, expected);
}

#[test]
fn empty_payload_packets() {
    assert_eq!(p::match_join_fail(), vec![37, 0, 0, 0, 0, 0, 0]);
    assert_eq!(p::match_transfer_host(), vec![50, 0, 0, 0, 0, 0, 0]);
}

#[test]
fn online_users_is_a_counted_array() {
    let data = p::online_users(&[3, 1000]);
    packet_test(&data, p::USER_PRESENCE_BUNDLE, &[2, 0, 3, 0, 0, 0, 0xe8, 3, 0, 0]);
}
