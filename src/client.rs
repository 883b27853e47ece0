//! The client side of the control socket: framing a request and reading the reply.

use vstd::prelude::*;
use crate::error::Error;
use crate::protocol::{trimmed, trim_str};
use crate::text::same_text;

verus! {

/// The line sent for a command: the command and a newline.
pub fn request_line(cmd: &str) -> (r: String)
    ensures
        r@ == cmd@.push('\n'),
{
    let mut line = String::from_str(cmd);
    line.append("\n");
    proof {
        reveal_strlit("\n");
    }
    line
}

/// The reply carried by a line read from the socket, without surrounding whitespace.
pub fn reply_text(raw: &str) -> (r: String)
    ensures
        r@ == trimmed(raw@),
{
    String::from_str(trim_str(raw))
}

/// Whether the daemon is running, from the outcome of sending it `ping`: it
/// is when the exchange succeeded and the reply was `pong`.
pub fn is_daemon_running(reply: &Result<String, Error>) -> (r: bool)
    ensures
        r == (reply matches Ok(t) && t@ == "pong"@),
{
    match reply {
        Ok(t) => same_text(t.as_str(), "pong"),
        Err(_) => false,
    }
}

} // verus!
