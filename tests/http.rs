use isoku::http::{Response, StatusCode};

#[test]
fn body_is_announced_by_length() {
    let mut r = Response::from_body(b"hello".to_vec());
    r.put_headers(&[("cho-token", "abc"), ("cho-protocol", "19")]);
    let out = r.encode();
    assert_eq!(
        out,
        b"HTTP/1.1 200 OK\r\ncho-token: abc\r\ncho-protocol: 19\r\nContent-Length: 5\r\n\r\nhello".to_vec()
    );
}

#[test]
fn empty_responses_have_only_a_status_line() {
    assert_eq!(Response::empty().encode(), b"HTTP/1.1 200 OK\r\n".to_vec());
    assert_eq!(Response::empty_nf().encode(), b"HTTP/1.1 404 Not Found\r\n".to_vec());
}

#[test]
fn raw_headers_and_status_change() {
    let mut r = Response::from_raw(b"x: y\r\n".to_vec(), vec![0u8; 12]);
    r.set_status(StatusCode::NotFound);
    let out = r.encode();
    let mut expected = b"HTTP/1.1 404 Not Found\r\nx: y\r\nContent-Length: 12\r\n\r\n".to_vec();
    expected.extend(vec![0u8; 12]);
    assert_eq!(out, expected);
}
