//! Classifying the first bytes of an inbound connection, reading a CONNECT target,
//! and the replies the listener writes back.
use vstd::prelude::*;

use crate::text::{
    chars_of, find_char, find_in, parse_u16_in, rfind_char, rfind_in, skip_spaces, skip_spaces_at,
    starts_with_chars, text_between, u16_value, word_end, word_end_at,
};

verus! {

#[derive(Debug, Clone, Copy, PartialEq, Eq, Structural)]
pub enum ProxyError {
    /// Nothing was read before the peer closed.
    EmptyRequest,
    /// The CONNECT line holds no target.
    MalformedConnectTarget,
    /// The port of a CONNECT target is not a 16-bit number.
    InvalidPort,
    /// The requested target could not be reached.
    UpstreamUnreachable,
}

/// What to do with an inbound connection.
#[derive(Debug, Clone)]
pub enum Dispatch {
    /// Open a tunnel to `host:port`.
    Tunnel { host: String, port: u16 },
    /// Answer with the fixed placeholder page.
    Placeholder,
    /// Answer `405 Method Not Allowed`.
    NotAllowed,
}

/// The replies written to the client.
#[derive(Debug, Clone, Copy, PartialEq, Eq, Structural)]
pub enum Reply {
    Established,
    BadGateway,
    Placeholder,
    NotAllowed,
}

/// Host and port of a CONNECT target: the host is all before the last `:`, the port all
/// after it; with no `:` the port is 80.
pub open spec fn host_port_of(t: Seq<char>) -> Result<(Seq<char>, u16), ProxyError> {
    let c = rfind_in(t, 0, t.len() as int, ':');
    if c >= 0 {
        match u16_value(t.subrange(c + 1, t.len() as int)) {
            Some(p) => Ok((t.subrange(0, c), p)),
            None => Err(ProxyError::InvalidPort),
        }
    } else {
        Ok((t, 80u16))
    }
}

/// The first line of a request, up to the first line feed.
pub open spec fn first_line(s: Seq<char>) -> Seq<char> {
    s.subrange(0, find_in(s, 0, s.len() as int, '\n'))
}

/// The target of a CONNECT line: its second whitespace-separated word.
pub open spec fn connect_target(line: Seq<char>) -> Result<(Seq<char>, u16), ProxyError> {
    let n = line.len() as int;
    let b = word_end(line, skip_spaces(line, 0, n), n);
    let c = skip_spaces(line, b, n);
    if c >= n {
        Err(ProxyError::MalformedConnectTarget)
    } else {
        host_port_of(line.subrange(c, word_end(line, c, n)))
    }
}

/// Splits a CONNECT target into host and port.
pub fn parse_host_port(target: &str) -> (r: Result<(String, u16), ProxyError>)
    ensures
        match r {
            Ok((h, p)) => host_port_of(target@) == Ok::<(Seq<char>, u16), ProxyError>((h@, p)),
            Err(e) => host_port_of(target@) == Err::<(Seq<char>, u16), ProxyError>(e),
        },
{
    let v = chars_of(target);
    match rfind_char(&v, 0, v.len(), ':') {
        Some(c) => match parse_u16_in(&v, c + 1, v.len()) {
            Some(p) => Ok((text_between(&v, 0, c), p)),
            None => Err(ProxyError::InvalidPort),
        },
        None => {
            let h = text_between(&v, 0, v.len());
            assert(v@.subrange(0, v@.len() as int) =~= v@);
            Ok((h, 80))
        },
    }
}

/// Reads the target of a CONNECT line.
fn parse_connect_line(line: &Vec<char>) -> (r: Result<(String, u16), ProxyError>)
    ensures
        match r {
            Ok((h, p)) => connect_target(line@) == Ok::<(Seq<char>, u16), ProxyError>((h@, p)),
            Err(e) => connect_target(line@) == Err::<(Seq<char>, u16), ProxyError>(e),
        },
{
    let n = line.len();
    let a = skip_spaces_at(line, 0, n);
    let b = word_end_at(line, a, n);
    let c = skip_spaces_at(line, b, n);
    if c >= n {
        return Err(ProxyError::MalformedConnectTarget);
    }
    let d = word_end_at(line, c, n);
    let target = text_between(line, c, d);
    parse_host_port(target.as_str())
}

/// Decides what to do with the text first read from a connection.
pub fn dispatch_request(request: &str) -> (r: Result<Dispatch, ProxyError>)
    ensures
        request@.len() == 0 ==> r == Err::<Dispatch, ProxyError>(ProxyError::EmptyRequest),
        request@.len() > 0 ==> {
            let line = first_line(request@);
            if line.len() >= 7 && line.subrange(0, 7) == "CONNECT"@ {
                match connect_target(line) {
                    Ok((h, p)) => r matches Ok(Dispatch::Tunnel { host, port }) && host@ == h && port
                        == p,
                    Err(e) => r == Err::<Dispatch, ProxyError>(e),
                }
            } else if (line.len() >= 3 && line.subrange(0, 3) == "GET"@) || (line.len() >= 4
                && line.subrange(0, 4) == "POST"@) {
                r matches Ok(Dispatch::Placeholder)
            } else {
                r matches Ok(Dispatch::NotAllowed)
            }
        },
{
    let v = chars_of(request);
    if v.len() == 0 {
        return Err(ProxyError::EmptyRequest);
    }
    let e = find_char(&v, 0, v.len(), '\n');
    let line_text = text_between(&v, 0, e);
    let line = chars_of(line_text.as_str());
    let connect = chars_of("CONNECT");
    let get = chars_of("GET");
    let post = chars_of("POST");
    proof {
        reveal_strlit("CONNECT");
        reveal_strlit("GET");
        reveal_strlit("POST");
    }
    if starts_with_chars(&line, &connect) {
        match parse_connect_line(&line) {
            Ok((host, port)) => Ok(Dispatch::Tunnel { host, port }),
            Err(e) => Err(e),
        }
    } else if starts_with_chars(&line, &get) || starts_with_chars(&line, &post) {
        Ok(Dispatch::Placeholder)
    } else {
        Ok(Dispatch::NotAllowed)
    }
}

/// The reply to send once the outbound connection was tried, and how the attempt ends.
pub fn connect_outcome(connected: bool) -> (r: (Reply, Result<(), ProxyError>))
    ensures
        connected ==> r == (Reply::Established, Ok::<(), ProxyError>(())),
        !connected ==> r == (Reply::BadGateway, Err::<(), ProxyError>(
            ProxyError::UpstreamUnreachable,
        )),
{
    if connected {
        (Reply::Established, Ok(()))
    } else {
        (Reply::BadGateway, Err(ProxyError::UpstreamUnreachable))
    }
}

/// The bytes of each reply, as text.
pub fn reply_text(reply: Reply) -> (r: &'static str)
    ensures
        reply == Reply::Established ==> r@ == "HTTP/1.1 200 Connection Established\r\n\r\n"@,
        reply == Reply::BadGateway ==> r@ == "HTTP/1.1 502 Bad Gateway\r\n\r\n"@,
        reply == Reply::Placeholder ==> r@
            == "HTTP/1.1 200 OK\r\nContent-Length: 13\r\n\r\nProxy working"@,
        reply == Reply::NotAllowed ==> r@ == "HTTP/1.1 405 Method Not Allowed\r\n\r\n"@,
{
    match reply {
        Reply::Established => "HTTP/1.1 200 Connection Established\r\n\r\n",
        Reply::BadGateway => "HTTP/1.1 502 Bad Gateway\r\n\r\n",
        Reply::Placeholder => "HTTP/1.1 200 OK\r\nContent-Length: 13\r\n\r\nProxy working",
        Reply::NotAllowed => "HTTP/1.1 405 Method Not Allowed\r\n\r\n",
    }
}

} // verus!
