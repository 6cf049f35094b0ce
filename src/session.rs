//! The decisions of the connection's loops: what the receive loop does with
//! each frame from the server, when the send loop stops, and what the
//! operator's console commands mean. The loops themselves run outside.
use vstd::prelude::*;
use vstd::utf8::{decode_utf8, valid_utf8};
use crate::error::Error;

verus! {

/// A frame as the server sent it.
pub enum Inbound {
    Text(String),
    Binary(Vec<u8>),
    Ping(Vec<u8>),
    Pong(Vec<u8>),
    Close,
}

/// A frame to hand to the send loop.
pub enum Outbound {
    Text(String),
    Ping(Vec<u8>),
    Pong(Vec<u8>),
    Close,
}

/// What the receive loop does with a frame.
pub enum Reaction {
    /// Feed this text to the parser.
    Process(String),
    /// Queue this frame.
    Send(Outbound),
    /// Nothing to do.
    Ignore,
    /// Queue a close frame and end the loop; with the error that caused it,
    /// if any.
    Stop(Option<Error>),
}

/// What the send loop does after handing a frame to the transport.
#[derive(Debug, Clone, Copy, PartialEq, Eq, Structural)]
pub enum AfterSend {
    /// A close frame went out: end the loop.
    Stop,
    /// Wait the throttle interval before the next frame.
    Wait,
}

/// Relies on `String::from_utf8`: the text that the bytes encode, or
/// nothing when they are not valid UTF-8.
#[verifier::external_body]
fn decode_text(b: Vec<u8>) -> (r: Option<String>)
    ensures
        match r {
            Some(s) => valid_utf8(b@) && s@ == decode_utf8(b@),
            None => !valid_utf8(b@),
        },
{
    String::from_utf8(b).ok()
}

/// The receive loop's answer to a frame: a close is echoed and ends the
/// loop; a ping is answered with a pong carrying the same bytes; text is
/// parsed; binary data is parsed as UTF-8 text, and bytes that are not
/// UTF-8 end the loop with a decode error.
pub fn on_inbound(frame: Inbound) -> (r: Reaction)
    ensures
        match frame {
            Inbound::Close => r == Reaction::Stop(None),
            Inbound::Ping(p) => r matches Reaction::Send(Outbound::Pong(q)) && q@ == p@,
            Inbound::Pong(_) => r == Reaction::Ignore,
            Inbound::Text(s) => r matches Reaction::Process(t) && t@ == s@,
            Inbound::Binary(b) => if valid_utf8(b@) {
                r matches Reaction::Process(t) && t@ == decode_utf8(b@)
            } else {
                r == Reaction::Stop(Some(Error::Decode))
            },
        },
{
    match frame {
        Inbound::Close => Reaction::Stop(None),
        Inbound::Ping(p) => Reaction::Send(Outbound::Pong(p)),
        Inbound::Pong(_) => Reaction::Ignore,
        Inbound::Text(s) => Reaction::Process(s),
        Inbound::Binary(b) => match decode_text(b) {
            Some(s) => Reaction::Process(s),
            None => Reaction::Stop(Some(Error::Decode)),
        },
    }
}

/// The send loop ends after a close frame, and otherwise waits the
/// throttle interval, whatever the frame.
pub fn after_send(frame: &Outbound) -> (r: AfterSend)
    ensures
        r == (if frame is Close {
            AfterSend::Stop
        } else {
            AfterSend::Wait
        }),
{
    match frame {
        Outbound::Close => AfterSend::Stop,
        _ => AfterSend::Wait,
    }
}

/// A character with the Unicode property White_Space, as
/// `char::is_whitespace` tells.
pub open spec fn is_white(c: char) -> bool {
    ('\u{9}' <= c && c <= '\u{d}') || c == ' ' || c == '\u{85}' || c == '\u{a0}' || c == '\u{1680}'
        || ('\u{2000}' <= c && c <= '\u{200a}') || c == '\u{2028}' || c == '\u{2029}' || c
        == '\u{202f}' || c == '\u{205f}' || c == '\u{3000}'
}

/// `s` without its leading white space.
pub open spec fn trim_start_of(s: Seq<char>) -> Seq<char>
    decreases s.len(),
{
    if s.len() > 0 && is_white(s[0]) {
        trim_start_of(s.drop_first())
    } else {
        s
    }
}

/// `s` without its trailing white space.
pub open spec fn trim_end_of(s: Seq<char>) -> Seq<char>
    decreases s.len(),
{
    if s.len() > 0 && is_white(s.last()) {
        trim_end_of(s.drop_last())
    } else {
        s
    }
}

/// `s` without leading and trailing white space.
pub open spec fn trim_of(s: Seq<char>) -> Seq<char> {
    trim_end_of(trim_start_of(s))
}

/// Relies on `str::trim`: the text without the leading and trailing
/// characters that have the property White_Space.
#[verifier::external_body]
fn trim(s: &str) -> (r: String)
    ensures
        r@ == trim_of(s@),
{
    s.trim().to_owned()
}

/// The payload of the console's keepalive probe.
pub open spec fn ping_payload() -> Seq<u8> {
    seq![80u8, 73u8, 78u8, 71u8]
}

/// An operator's console line, trimmed: `/close` sends a close frame and
/// ends the console; `/ping` sends a keepalive probe; anything else is sent
/// as it is. The flag tells whether the console ends.
pub fn console_command(line: &str) -> (r: (Outbound, bool))
    ensures
        trim_of(line@) == "/close"@ ==> r.0 is Close && r.1,
        trim_of(line@) == "/ping"@ ==> (r.0 matches Outbound::Ping(p) && p@ == ping_payload()
            && !r.1),
        trim_of(line@) != "/close"@ && trim_of(line@) != "/ping"@ ==> (r.0 matches Outbound::Text(
            t,
        ) && t@ == trim_of(line@) && !r.1),
{
    proof {
        reveal_strlit("/close");
        reveal_strlit("/ping");
        assert("/close"@[1] != "/ping"@[1]);
    }
    let t = trim(line);
    if t == "/close".to_owned() {
        (Outbound::Close, true)
    } else if t == "/ping".to_owned() {
        let mut p: Vec<u8> = Vec::new();
        p.push(80u8);
        p.push(73u8);
        p.push(78u8);
        p.push(71u8);
        assert(p@ =~= ping_payload());
        (Outbound::Ping(p), false)
    } else {
        (Outbound::Text(t), false)
    }
}

} // verus!
