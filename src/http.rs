//! HTTP responses as bytes: a status line, header lines, and an optional
//! body announced by its length.
use vstd::prelude::*;
use vstd::utf8::encode_utf8;
use crate::codec::push_bytes;

verus! {

#[derive(Debug, Clone, Copy, PartialEq, Eq, Structural)]
pub enum StatusCode {
    Success,
    NotFound,
}

pub open spec fn crlf() -> Seq<u8> {
    seq![13u8, 10u8]
}

/// The decimal digits of `n` as ASCII bytes.
pub open spec fn dec_bytes(n: nat) -> Seq<u8>
    decreases n,
{
    if n < 10 {
        seq![(48 + n) as u8]
    } else {
        dec_bytes(n / 10).push((48 + n % 10) as u8)
    }
}

/// `name: value` and a line break for each header.
pub open spec fn header_lines(h: Seq<(&str, &str)>) -> Seq<u8>
    decreases h.len(),
{
    if h.len() == 0 {
        Seq::empty()
    } else {
        header_lines(h.drop_last()) + encode_utf8(h.last().0@) + seq![58u8, 32u8] + encode_utf8(
            h.last().1@,
        ) + crlf()
    }
}

pub open spec fn status_line(s: StatusCode) -> Seq<u8> {
    match s {
        StatusCode::Success => encode_utf8("HTTP/1.1 200 OK\r\n"@),
        StatusCode::NotFound => encode_utf8("HTTP/1.1 404 Not Found\r\n"@),
    }
}

pub struct Response {
    /// Header lines, already encoded.
    pub headers: Option<Vec<u8>>,
    pub body: Option<Vec<u8>>,
    pub status: StatusCode,
}

/// The whole response: the status line, the headers, then, with a body, its
/// length, an empty line and the body.
pub open spec fn response_bytes(r: &Response) -> Seq<u8> {
    status_line(r.status) + match r.headers {
        Some(h) => h@,
        None => Seq::empty(),
    } + match r.body {
        Some(b) => encode_utf8("Content-Length: "@) + dec_bytes(b@.len()) + crlf() + crlf() + b@,
        None => Seq::empty(),
    }
}

fn push_dec(buf: &mut Vec<u8>, n: u64)
    ensures
        final(buf)@ == old(buf)@ + dec_bytes(n as nat),
    decreases n,
{
    if n < 10 {
        buf.push((48 + n) as u8);
        assert(final(buf)@ =~= old(buf)@ + dec_bytes(n as nat));
    } else {
        push_dec(buf, n / 10);
        buf.push((48 + n % 10) as u8);
        assert(buf@ =~= old(buf)@ + dec_bytes(n as nat));
    }
}

fn push_crlf(buf: &mut Vec<u8>)
    ensures
        final(buf)@ == old(buf)@ + crlf(),
{
    buf.push(13);
    buf.push(10);
    assert(buf@ =~= old(buf)@ + crlf());
}

impl Response {
    /// `200 OK` with neither headers nor body.
    pub fn empty() -> (r: Response)
        ensures
            r.status == StatusCode::Success && r.headers is None && r.body is None,
    {
        Response { headers: None, body: None, status: StatusCode::Success }
    }

    /// `404 Not Found` with neither headers nor body.
    pub fn empty_nf() -> (r: Response)
        ensures
            r.status == StatusCode::NotFound && r.headers is None && r.body is None,
    {
        Response { headers: None, body: None, status: StatusCode::NotFound }
    }

    /// `200 OK` with encoded header lines and a body.
    pub fn from_raw(headers: Vec<u8>, body: Vec<u8>) -> (r: Response)
        ensures
            r.status == StatusCode::Success,
            r.headers matches Some(h) && h@ == headers@,
            r.body matches Some(b) && b@ == body@,
    {
        Response { headers: Some(headers), body: Some(body), status: StatusCode::Success }
    }

    /// `200 OK` with a body and no headers.
    pub fn from_body(body: Vec<u8>) -> (r: Response)
        ensures
            r.status == StatusCode::Success,
            r.headers is None,
            r.body matches Some(b) && b@ == body@,
    {
        Response { headers: None, body: Some(body), status: StatusCode::Success }
    }

    pub fn set_status(&mut self, s: StatusCode)
        ensures
            final(self).status == s,
            final(self).headers == old(self).headers,
            final(self).body == old(self).body,
    {
        self.status = s;
    }

    /// Replaces the headers with these `name: value` lines.
    pub fn put_headers(&mut self, headers: &[(&str, &str)])
        ensures
            final(self).headers matches Some(h) && h@ == header_lines(headers@),
            final(self).status == old(self).status,
            final(self).body == old(self).body,
    {
        let mut buf: Vec<u8> = Vec::new();
        let mut i: usize = 0;
        while i < headers.len()
            invariant
                i <= headers@.len(),
                buf@ == header_lines(headers@.take(i as int)),
            decreases headers@.len() - i,
        {
            let (name, value) = headers[i];
            push_bytes(&mut buf, name.as_bytes());
            buf.push(58);
            buf.push(32);
            push_bytes(&mut buf, value.as_bytes());
            push_crlf(&mut buf);
            proof {
                assert(headers@.take(i + 1).drop_last() =~= headers@.take(i as int));
            }
            i += 1;
            assert(buf@ =~= header_lines(headers@.take(i as int)));
        }
        assert(headers@.take(i as int) =~= headers@);
        self.headers = Some(buf);
    }

    /// The response as it goes on the wire.
    pub fn encode(self) -> (r: Vec<u8>)
        ensures
            r@ == response_bytes(&self),
    {
        let ghost me = self;
        let mut buf: Vec<u8> = Vec::new();
        match self.status {
            StatusCode::Success => push_bytes(&mut buf, "HTTP/1.1 200 OK\r\n".as_bytes()),
            StatusCode::NotFound => push_bytes(&mut buf, "HTTP/1.1 404 Not Found\r\n".as_bytes()),
        }
        match self.headers {
            Some(h) => push_bytes(&mut buf, h.as_slice()),
            None => {},
        }
        match self.body {
            Some(b) => {
                push_bytes(&mut buf, "Content-Length: ".as_bytes());
                push_dec(&mut buf, b.len() as u64);
                push_crlf(&mut buf);
                push_crlf(&mut buf);
                push_bytes(&mut buf, b.as_slice());
            },
            None => {},
        }
        assert(buf@ =~= response_bytes(&me));
        buf
    }
}

} // verus!
