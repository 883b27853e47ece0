//! The line protocol of the control socket: one request line in, one reply line out.

use vstd::prelude::*;
use crate::text::same_text;

verus! {

/// Whether the items left of the divider are shown or pushed off screen.
#[derive(Clone, Copy, Debug, PartialEq, Eq, Structural)]
pub enum Visibility {
    Visible,
    Hidden,
}

/// A request read from the control socket.
#[derive(Clone, Copy, Debug, PartialEq, Eq, Structural)]
pub enum Request {
    Ping,
    Hide,
    Show,
    Stop,
    State,
    Unknown,
}

/// The request that a line means once surrounding whitespace is removed.
pub open spec fn request_of(t: Seq<char>) -> Request {
    if t == "ping"@ {
        Request::Ping
    } else if t == "hide"@ {
        Request::Hide
    } else if t == "show"@ {
        Request::Show
    } else if t == "stop"@ {
        Request::Stop
    } else if t == "state"@ {
        Request::State
    } else {
        Request::Unknown
    }
}

/// The reply to a request, given the current visibility (without its newline).
pub open spec fn reply_of(req: Request, vis: Visibility) -> Seq<char> {
    match req {
        Request::Ping => "pong"@,
        Request::Hide | Request::Show | Request::Stop => "ok"@,
        Request::State => match vis {
            Visibility::Hidden => "hidden"@,
            Visibility::Visible => "visible"@,
        },
        Request::Unknown => "unknown"@,
    }
}

/// What `str::trim` leaves of a string.
pub uninterp spec fn trimmed(s: Seq<char>) -> Seq<char>;

/// Relies on `str::trim`: the string without leading and trailing whitespace.
#[verifier::external_body]
pub(crate) fn trim_str(s: &str) -> (r: &str)
    ensures
        r@ == trimmed(s@),
{
    s.trim()
}

/// The request named by a line that has already been trimmed.
pub fn parse_trimmed(t: &str) -> (r: Request)
    ensures
        r == request_of(t@),
{
    if same_text(t, "ping") {
        Request::Ping
    } else if same_text(t, "hide") {
        Request::Hide
    } else if same_text(t, "show") {
        Request::Show
    } else if same_text(t, "stop") {
        Request::Stop
    } else if same_text(t, "state") {
        Request::State
    } else {
        Request::Unknown
    }
}

/// The request named by a raw line read from the socket.
pub fn parse_request(line: &str) -> (r: Request)
    ensures
        r == request_of(trimmed(line@)),
{
    let t = trim_str(line);
    parse_trimmed(t)
}

/// The reply text for a request.
pub fn reply(req: Request, vis: Visibility) -> (r: &'static str)
    ensures
        r@ == reply_of(req, vis),
{
    match req {
        Request::Ping => "pong",
        Request::Hide | Request::Show | Request::Stop => "ok",
        Request::State => match vis {
            Visibility::Hidden => "hidden",
            Visibility::Visible => "visible",
        },
        Request::Unknown => "unknown",
    }
}

} // verus!
