use isoku::leb;
use rand::Rng;

#[test]
fn leb() {
    let mut buf = Vec::new();
    let value: u32 = {
        let mut rng = rand::thread_rng();
        rng.gen()
    };
    leb::encode(&mut buf, value);
    let (decoded, _) = leb::decode(&buf).unwrap();
    assert_eq!(decoded, value);
}

#[test]
fn leb_known_values() {
    let mut buf = Vec::new();
    leb::encode(&mut buf, 300);
    assert_eq!(buf, vec![0xac, 0x02]);
    assert_eq!(leb::decode(&buf).unwrap(), (300, 2));
    let mut buf = Vec::new();
    leb::encode(&mut buf, u32::MAX);
    assert_eq!(buf, vec![0xff, 0xff, 0xff, 0xff, 0x0f]);
    assert_eq!(leb::decode(&buf).unwrap(), (u32::MAX, 5));
}

#[test]
fn leb_rejects_overlong_or_unterminated() {
    assert!(leb::decode(&[0x80, 0x80, 0x80, 0x80, 0x80, 0x01]).is_err());
    assert!(leb::decode(&[0x80]).is_err());
    assert!(leb::decode(&[0xff, 0xff, 0xff, 0xff, 0x1f]).is_err());
}
