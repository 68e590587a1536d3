//! Talking to the masterbase, where demos are uploaded: the addresses of
//! its endpoints and how the bytes written at the end of a demo are sent.
//! The requests themselves are made by the application.
use crate::text::{push_str, string_push};
use vstd::prelude::*;

verus! {

/// The address of an endpoint of the masterbase at `host`: over HTTP where
/// `http` is set, else over HTTPS.
pub open spec fn spec_endpoint(host: Seq<char>, path: Seq<char>, http: bool) -> Seq<char> {
    (if http {
        "http://"@
    } else {
        "https://"@
    }) + host + path
}

/// The address of the masterbase's demo stream at `host`: over WS where
/// `http` is set, else over WSS.
pub open spec fn spec_ws_endpoint(host: Seq<char>, path: Seq<char>, http: bool) -> Seq<char> {
    (if http {
        "ws://"@
    } else {
        "wss://"@
    }) + host + path
}

/// The address of an endpoint (see `spec_endpoint`), such as
/// `/session_id`, `/report`, `/late_bytes` or `/close_session`.
pub fn endpoint(host: &str, path: &str, http: bool) -> (r: String)
    ensures
        r@ == spec_endpoint(host@, path@, http),
{
    let mut r = if http {
        "http://".to_string()
    } else {
        "https://".to_string()
    };
    push_str(&mut r, host);
    push_str(&mut r, path);
    r
}

/// The address of the demo stream (see `spec_ws_endpoint`), such as
/// `/demos`.
pub fn ws_endpoint(host: &str, path: &str, http: bool) -> (r: String)
    ensures
        r@ == spec_ws_endpoint(host@, path@, http),
{
    let mut r = if http {
        "ws://".to_string()
    } else {
        "wss://".to_string()
    };
    push_str(&mut r, host);
    push_str(&mut r, path);
    r
}

/// The lower-case hexadecimal digit for a value below sixteen.
pub open spec fn hex_digit(n: int) -> char {
    if n < 10 {
        (n + '0' as int) as char
    } else {
        (n - 10 + 'a' as int) as char
    }
}

/// Each byte as two lower-case hexadecimal digits, in order.
pub open spec fn spec_hex(bytes: Seq<u8>) -> Seq<char>
    decreases bytes.len(),
{
    if bytes.len() == 0 {
        Seq::empty()
    } else {
        let b = bytes.last();
        spec_hex(bytes.drop_last()) + seq![hex_digit((b / 16) as int), hex_digit((b % 16) as int)]
    }
}

/// The lower-case hexadecimal digit for a value below sixteen.
fn hex_char(n: u8) -> (c: char)
    requires
        n < 16,
    ensures
        c == hex_digit(n as int),
{
    if n < 10 {
        ((n + 48) as char)
    } else {
        ((n - 10 + 97) as char)
    }
}

/// The bytes written at the end of a demo as they are sent: each byte as
/// two lower-case hexadecimal digits.
pub fn late_bytes_hex(bytes: &[u8]) -> (s: String)
    ensures
        s@ == spec_hex(bytes@),
{
    let mut s = String::new();
    let mut i: usize = 0;
    while i < bytes.len()
        invariant
            i <= bytes@.len(),
            s@ == spec_hex(bytes@.take(i as int)),
        decreases bytes.len() - i,
    {
        let b = bytes[i];
        proof {
            assert(bytes@.take(i + 1).drop_last() =~= bytes@.take(i as int));
            assert(bytes@.take(i + 1).last() == b);
        }
        let ghost before = s@;
        string_push(&mut s, hex_char(b / 16));
        string_push(&mut s, hex_char(b % 16));
        proof {
            assert(s@ =~= before + seq![hex_digit((b / 16) as int), hex_digit((b % 16) as int)]);
        }
        i = i + 1;
    }
    proof {
        assert(bytes@.take(bytes@.len() as int) =~= bytes@);
    }
    s
}

/// What the answer to closing a leftover upload session says.
#[derive(Debug, Clone, Copy, PartialEq, Eq, Structural)]
pub enum CloseSessionOutcome {
    /// A session was open, and is now closed.
    Closed,
    /// The masterbase failed.
    ServerError,
    /// The key was refused: uploads are off.
    InvalidKey,
    /// No session was open: the key was accepted.
    NoSession,
    /// Any other refusal.
    ClientError,
}

/// What the HTTP status of the answer to closing a leftover session says:
/// success (2xx) is a closed session, 5xx a failure of the masterbase, 401
/// a refused key, 403 no open session, and anything else a refusal.
pub fn close_session_outcome(status: u16) -> (o: CloseSessionOutcome)
    ensures
        o == if 200 <= status <= 299 {
            CloseSessionOutcome::Closed
        } else if 500 <= status <= 599 {
            CloseSessionOutcome::ServerError
        } else if status == 401 {
            CloseSessionOutcome::InvalidKey
        } else if status == 403 {
            CloseSessionOutcome::NoSession
        } else {
            CloseSessionOutcome::ClientError
        },
{
    if 200 <= status && status <= 299 {
        CloseSessionOutcome::Closed
    } else if 500 <= status && status <= 599 {
        CloseSessionOutcome::ServerError
    } else if status == 401 {
        CloseSessionOutcome::InvalidKey
    } else if status == 403 {
        CloseSessionOutcome::NoSession
    } else {
        CloseSessionOutcome::ClientError
    }
}

} // verus!
