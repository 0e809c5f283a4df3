//! The latency-probe sub-protocol and the session state machine.
//!
//! Each inbound text frame is tentatively read as a JSON object (see
//! [`crate::json`]). A frame whose `type` member holds the string `ping` and
//! which has a `seq` member earns a pong: `{"type":"pong","seq":` followed by
//! the frame's own `seq` value token and a closing brace — the same value the
//! client sent, byte for byte. Every other text frame, JSON or not, is echoed
//! back unchanged, and a ping without `seq` is echoed too. Binary frames are
//! consumed, never echoed. A close frame or a transport error ends the
//! session.
use vstd::prelude::*;

use crate::json::{
    is_ping, parse_object_ex, ping_seq_span, scan_ws, token_ping_bytes, DEPTH_LIMIT,
};
use crate::bytes::bytes_eq;

verus! {

/// The bytes that open every pong reply.
pub open spec fn pong_prefix() -> Seq<u8> {
    seq![
        '{' as u8, '"' as u8, 't' as u8, 'y' as u8, 'p' as u8, 'e' as u8, '"' as u8, ':' as u8,
        '"' as u8, 'p' as u8, 'o' as u8, 'n' as u8, 'g' as u8, '"' as u8, ',' as u8, '"' as u8,
        's' as u8, 'e' as u8, 'q' as u8, '"' as u8, ':' as u8,
    ]
}

/// The reply owed to a text frame: a pong carrying the frame's own `seq`
/// token when the frame is a ping, the frame itself otherwise.
pub open spec fn reply_spec(t: Seq<u8>) -> Seq<u8> {
    if is_ping(t) {
        pong_prefix() + t.subrange(ping_seq_span(t).0, ping_seq_span(t).1) + seq!['}' as u8]
    } else {
        t
    }
}

fn pong_prefix_bytes() -> (v: Vec<u8>)
    ensures
        v@ == pong_prefix(),
{
    let mut v: Vec<u8> = Vec::new();
    v.push('{' as u8);
    v.push('"' as u8);
    v.push('t' as u8);
    v.push('y' as u8);
    v.push('p' as u8);
    v.push('e' as u8);
    v.push('"' as u8);
    v.push(':' as u8);
    v.push('"' as u8);
    v.push('p' as u8);
    v.push('o' as u8);
    v.push('n' as u8);
    v.push('g' as u8);
    v.push('"' as u8);
    v.push(',' as u8);
    v.push('"' as u8);
    v.push('s' as u8);
    v.push('e' as u8);
    v.push('q' as u8);
    v.push('"' as u8);
    v.push(':' as u8);
    assert(v@ =~= pong_prefix());
    v
}

/// Decides whether a text frame is a ping; when it is, returns the span of
/// its `seq` value token.
pub fn classify_text(t: &[u8]) -> (r: Option<(usize, usize)>)
    ensures
        r is Some <==> is_ping(t@),
        r matches Some(sp) ==> sp.0 as int == ping_seq_span(t@).0 && sp.1 as int == ping_seq_span(
            t@,
        ).1 && sp.0 <= sp.1 <= t@.len(),
{
    let mut cur: usize = 0;
    while cur < t.len() && ws_probe(t, cur)
        invariant
            cur <= t@.len(),
            scan_ws(t@, 0) == scan_ws(t@, cur as int),
        decreases t@.len() - cur,
    {
        assert(scan_ws(t@, cur as int) == scan_ws(t@, cur + 1 as int));
        cur += 1;
    }
    assert(scan_ws(t@, cur as int) == cur as int);
    match parse_object_ex(t, cur, DEPTH_LIMIT) {
        None => {
            assert(!is_ping(t@));
            None
        },
        Some((end, ty, sq)) => {
            let mut rest: usize = end;
            while rest < t.len() && ws_probe(t, rest)
                invariant
                    rest <= t@.len(),
                    scan_ws(t@, end as int) == scan_ws(t@, rest as int),
                decreases t@.len() - rest,
            {
                assert(scan_ws(t@, rest as int) == scan_ws(t@, rest + 1 as int));
                rest += 1;
            }
            assert(scan_ws(t@, rest as int) == rest as int);
            if rest < t.len() {
                assert(!is_ping(t@));
                return None;
            }
            match ty {
                None => {
                    assert(!is_ping(t@));
                    None
                },
                Some((a, b)) => {
                    let tok = token_ping_bytes();
                    if bytes_eq(&t[a..b], tok.as_slice()) {
                        match sq {
                            Some((c, d)) => Some((c, d)),
                            None => {
                                assert(!is_ping(t@));
                                None
                            },
                        }
                    } else {
                        assert(!is_ping(t@));
                        None
                    }
                },
            }
        },
    }
}

fn ws_probe(t: &[u8], i: usize) -> (r: bool)
    requires
        i < t@.len(),
    ensures
        r == crate::json::is_ws(t@[i as int]),
{
    let c = t[i];
    c == 32 || c == 9 || c == 10 || c == 13
}

/// Builds the frame to send back for an inbound text frame: the pong for a
/// ping, the frame itself (echo) for everything else.
pub fn reply_for_text(t: &[u8]) -> (r: Vec<u8>)
    ensures
        r@ == reply_spec(t@),
{
    match classify_text(t) {
        Some((a, b)) => {
            let mut v = pong_prefix_bytes();
            let mut k = a;
            while k < b
                invariant
                    a <= k <= b <= t@.len(),
                    v@ == pong_prefix() + t@.subrange(a as int, k as int),
                decreases b - k,
            {
                v.push(t[k]);
                assert(v@ =~= pong_prefix() + t@.subrange(a as int, k + 1 as int));
                k += 1;
            }
            v.push('}' as u8);
            assert(v@ =~= reply_spec(t@));
            v
        },
        None => {
            let mut v: Vec<u8> = Vec::new();
            let mut k: usize = 0;
            while k < t.len()
                invariant
                    k <= t@.len(),
                    v@ == t@.subrange(0, k as int),
                decreases t@.len() - k,
            {
                v.push(t[k]);
                assert(v@ =~= t@.subrange(0, k + 1 as int));
                k += 1;
            }
            assert(v@ =~= t@);
            v
        },
    }
}

/// One inbound occurrence a session reacts to: a frame from the peer, or the
/// outcome of the transport.
pub enum SessionEvent {
    /// A text frame's bytes.
    TextFrame(Vec<u8>),
    /// A binary frame arrived; only its size is of interest.
    BinaryFrame(u64),
    /// The peer sent a close frame.
    CloseFrame,
    /// Some other frame of the transport's own (its control traffic).
    ControlFrame,
    /// Reading from the transport failed.
    ReadError,
    /// A previously requested send failed.
    SendFailed,
}

/// What the embedding program must do next on behalf of the session.
pub enum SessionAction {
    /// Send this text frame to the peer.
    SendText(Vec<u8>),
    /// Nothing to send.
    DoNothing,
}

/// One long-lived latency-probe session over one connection. It is `Open`
/// until the peer closes or the transport fails, and then `Closed` for good;
/// the session and its connection live exactly as long as each other.
pub struct LatencySession {
    open: bool,
}

impl LatencySession {
    /// Whether the session still reads and answers frames.
    pub closed spec fn is_open(&self) -> bool {
        self.open
    }

    /// A session starts open, on a freshly upgraded connection.
    pub fn new() -> (r: LatencySession)
        ensures
            r.is_open(),
    {
        LatencySession { open: true }
    }

    /// Whether the session still reads and answers frames; once this turns
    /// false the connection is done and the read loop must end.
    pub fn open_now(&self) -> (r: bool)
        ensures
            r == self.is_open(),
    {
        self.open
    }

    /// Answers one event. Replies are produced one at a time, in the order
    /// the triggering frames are handed in, so answers never interleave or
    /// overtake each other on one session. A text frame earns exactly one
    /// reply frame — the pong for a ping, the verbatim echo otherwise — and
    /// nothing is ever sent for a binary frame, a control frame, or once the
    /// session has closed. A close frame or a transport failure closes the
    /// session for good.
    pub fn on_event(&mut self, event: SessionEvent) -> (act: SessionAction)
        ensures
            !old(self).is_open() ==> !final(self).is_open() && act is DoNothing,
            old(self).is_open() ==> match event {
                SessionEvent::TextFrame(t) => final(self).is_open() && (act matches
                    SessionAction::SendText(r) && r@ == reply_spec(t@)),
                SessionEvent::BinaryFrame(_) => final(self).is_open() && act is DoNothing,
                SessionEvent::ControlFrame => final(self).is_open() && act is DoNothing,
                SessionEvent::CloseFrame => !final(self).is_open() && act is DoNothing,
                SessionEvent::ReadError => !final(self).is_open() && act is DoNothing,
                SessionEvent::SendFailed => !final(self).is_open() && act is DoNothing,
            },
    {
        if !self.open {
            return SessionAction::DoNothing;
        }
        match event {
            SessionEvent::TextFrame(t) => SessionAction::SendText(reply_for_text(t.as_slice())),
            SessionEvent::BinaryFrame(_) => SessionAction::DoNothing,
            SessionEvent::ControlFrame => SessionAction::DoNothing,
            SessionEvent::CloseFrame => {
                self.open = false;
                SessionAction::DoNothing
            },
            SessionEvent::ReadError => {
                self.open = false;
                SessionAction::DoNothing
            },
            SessionEvent::SendFailed => {
                self.open = false;
                SessionAction::DoNothing
            },
        }
    }
}

} // verus!
