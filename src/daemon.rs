//! The daemon's state machine: a one-slot mailbox of pending commands, the
//! current visibility, and what the UI thread does when it takes a command.
//!
//! The socket thread only stages commands and asks the UI thread to run
//! `dispatch`; every change to the on-screen indicator is an `Effect` that the
//! UI thread applies.

use vstd::prelude::*;
use crate::protocol::{Request, Visibility, request_of, reply_of, trimmed, parse_request, reply};

verus! {

/// The content of the one-slot mailbox between the socket thread and the UI thread.
#[derive(Clone, Copy, Debug, PartialEq, Eq, Structural)]
pub enum PendingCommand {
    Empty,
    Hide,
    Show,
    Stop,
}

/// What the UI thread does to the indicator after taking a command.
#[derive(Clone, Copy, Debug, PartialEq, Eq, Structural)]
pub enum Effect {
    /// Leave the indicator as it is.
    Nothing,
    /// Expand the pusher and show the "hidden" glyph.
    Conceal,
    /// Collapse the pusher and show the "visible" glyph.
    Reveal,
    /// Collapse the pusher, remove the socket and PID files, and exit.
    Shutdown,
}

/// Length, in points, of the pusher when it pushes items off screen.
pub const PUSHER_EXPANDED: u32 = 10000;

/// Glyph of the divider while items are hidden (a single left angle quotation mark).
pub const GLYPH_HIDDEN: char = '\u{2039}';

/// Glyph of the divider while items are visible (a single right angle quotation mark).
pub const GLYPH_VISIBLE: char = '\u{203a}';

/// The command that a request stages, if any.
pub open spec fn staged_of(req: Request) -> Option<PendingCommand> {
    match req {
        Request::Hide => Some(PendingCommand::Hide),
        Request::Show => Some(PendingCommand::Show),
        Request::Stop => Some(PendingCommand::Stop),
        _ => None,
    }
}

/// New visibility and effect when the UI thread takes `cmd`; nothing happens
/// while the indicator has not been created yet.
pub open spec fn dispatch_of(cmd: PendingCommand, vis: Visibility, ready: bool) -> (Visibility, Effect) {
    if !ready {
        (vis, Effect::Nothing)
    } else {
        match cmd {
            PendingCommand::Empty => (vis, Effect::Nothing),
            PendingCommand::Hide => (Visibility::Hidden, Effect::Conceal),
            PendingCommand::Show => (Visibility::Visible, Effect::Reveal),
            PendingCommand::Stop => (Visibility::Visible, Effect::Shutdown),
        }
    }
}

/// The command staged by a click on the divider.
pub open spec fn toggle_of(vis: Visibility) -> PendingCommand {
    match vis {
        Visibility::Hidden => PendingCommand::Show,
        Visibility::Visible => PendingCommand::Hide,
    }
}

/// The command that a request stages in the mailbox, if any.
pub fn staged_command(req: Request) -> (r: Option<PendingCommand>)
    ensures
        r == staged_of(req),
{
    match req {
        Request::Hide => Some(PendingCommand::Hide),
        Request::Show => Some(PendingCommand::Show),
        Request::Stop => Some(PendingCommand::Stop),
        _ => None,
    }
}

/// The step of the UI thread: from the command it took, the current visibility,
/// and whether the indicator exists, to the next visibility and the effect to apply.
pub fn dispatch(cmd: PendingCommand, vis: Visibility, ready: bool) -> (r: (Visibility, Effect))
    ensures
        r == dispatch_of(cmd, vis, ready),
{
    if !ready {
        return (vis, Effect::Nothing);
    }
    match cmd {
        PendingCommand::Empty => (vis, Effect::Nothing),
        PendingCommand::Hide => (Visibility::Hidden, Effect::Conceal),
        PendingCommand::Show => (Visibility::Visible, Effect::Reveal),
        PendingCommand::Stop => (Visibility::Visible, Effect::Shutdown),
    }
}

/// The command staged by a click on the divider: it flips the visibility.
pub fn toggle_command(vis: Visibility) -> (r: PendingCommand)
    ensures
        r == toggle_of(vis),
{
    match vis {
        Visibility::Hidden => PendingCommand::Show,
        Visibility::Visible => PendingCommand::Hide,
    }
}

impl PendingCommand {
    /// The byte that stands for the command in an atomic cell.
    pub open spec fn code_of(self) -> u8 {
        match self {
            PendingCommand::Empty => 0,
            PendingCommand::Hide => 1,
            PendingCommand::Show => 2,
            PendingCommand::Stop => 3,
        }
    }

    /// The byte that stands for the command in an atomic cell.
    pub fn code(self) -> (r: u8)
        ensures
            r == self.code_of(),
    {
        match self {
            PendingCommand::Empty => 0,
            PendingCommand::Hide => 1,
            PendingCommand::Show => 2,
            PendingCommand::Stop => 3,
        }
    }

    /// The command a byte stands for; an unknown byte means an empty slot.
    pub fn from_code(b: u8) -> (r: PendingCommand)
        ensures
            b <= 3 ==> r.code_of() == b,
            b > 3 ==> r == PendingCommand::Empty,
    {
        if b == 1 {
            PendingCommand::Hide
        } else if b == 2 {
            PendingCommand::Show
        } else if b == 3 {
            PendingCommand::Stop
        } else {
            PendingCommand::Empty
        }
    }
}

impl Effect {
    /// The pusher length that the effect sets, if it sets one.
    pub fn pusher_length(self) -> (r: Option<u32>)
        ensures
            r == match self {
                Effect::Conceal => Some(PUSHER_EXPANDED),
                Effect::Reveal | Effect::Shutdown => Some(0u32),
                Effect::Nothing => None,
            },
    {
        match self {
            Effect::Conceal => Some(PUSHER_EXPANDED),
            Effect::Reveal | Effect::Shutdown => Some(0),
            Effect::Nothing => None,
        }
    }

    /// The divider glyph that the effect sets, if it sets one.
    pub fn glyph(self) -> (r: Option<char>)
        ensures
            r == match self {
                Effect::Conceal => Some(GLYPH_HIDDEN),
                Effect::Reveal => Some(GLYPH_VISIBLE),
                Effect::Shutdown | Effect::Nothing => None,
            },
    {
        match self {
            Effect::Conceal => Some(GLYPH_HIDDEN),
            Effect::Reveal => Some(GLYPH_VISIBLE),
            Effect::Shutdown | Effect::Nothing => None,
        }
    }
}

impl Visibility {
    /// The byte that stands for the visibility in an atomic cell.
    pub open spec fn code_of(self) -> u8 {
        match self {
            Visibility::Visible => 0,
            Visibility::Hidden => 1,
        }
    }

    /// The byte that stands for the visibility in an atomic cell.
    pub fn code(self) -> (r: u8)
        ensures
            r == self.code_of(),
    {
        match self {
            Visibility::Visible => 0,
            Visibility::Hidden => 1,
        }
    }

    /// The visibility a byte stands for: only 1 means hidden.
    pub fn from_code(b: u8) -> (r: Visibility)
        ensures
            r == (if b == 1 { Visibility::Hidden } else { Visibility::Visible }),
    {
        if b == 1 {
            Visibility::Hidden
        } else {
            Visibility::Visible
        }
    }
}

/// The daemon's shared state, seen from one thread at a time: the mailbox,
/// the visibility, and whether the indicator has been created.
#[derive(Clone, Copy, Debug, PartialEq, Eq, Structural)]
pub struct Daemon {
    pub pending: PendingCommand,
    pub visibility: Visibility,
    pub ready: bool,
}

/// The state after the socket thread has handled a request (before any dispatch).
pub open spec fn after_request(d: Daemon, req: Request) -> Daemon {
    match staged_of(req) {
        Some(c) => Daemon { pending: c, ..d },
        None => d,
    }
}

/// The state after the UI thread has taken the mailbox's content, and the effect.
pub open spec fn after_dispatch(d: Daemon) -> (Daemon, Effect) {
    let (v, e) = dispatch_of(d.pending, d.visibility, d.ready);
    (Daemon { pending: PendingCommand::Empty, visibility: v, ready: d.ready }, e)
}

/// The state after each request of `reqs` is handled and then dispatched in turn.
pub open spec fn run(d: Daemon, reqs: Seq<Request>) -> Daemon
    decreases reqs.len(),
{
    if reqs.len() == 0 {
        d
    } else {
        run(after_dispatch(after_request(d, reqs[0])).0, reqs.drop_first())
    }
}

/// Hide requests sent while the items are hidden are each answered "ok", and
/// however many of them are handled and dispatched, the items stay hidden.
pub proof fn hide_while_hidden_changes_nothing(d: Daemon, reqs: Seq<Request>)
    requires
        d.visibility == Visibility::Hidden,
        forall|i: int| 0 <= i < reqs.len() ==> reqs[i] == Request::Hide,
    ensures
        reply_of(Request::Hide, d.visibility) == "ok"@,
        run(d, reqs).visibility == Visibility::Hidden,
        run(d, reqs).ready == d.ready,
    decreases reqs.len(),
{
    if reqs.len() > 0 {
        let next = after_dispatch(after_request(d, reqs[0])).0;
        let rest = reqs.drop_first();
        assert forall|i: int| 0 <= i < rest.len() implies rest[i] == Request::Hide by {
            assert(rest[i] == reqs[i + 1]);
        }
        hide_while_hidden_changes_nothing(next, rest);
    }
}

/// A hide followed by a show, both staged before the UI thread runs: the state
/// reply does not change in between, the first dispatch shows the items, and the
/// second dispatch finds the mailbox empty and does nothing.
pub proof fn hide_then_show_collapses_to_show(d: Daemon)
    requires
        d.ready,
    ensures
        after_request(d, Request::Hide).visibility == d.visibility,
        after_request(after_request(d, Request::Hide), Request::Show).visibility == d.visibility,
        after_dispatch(after_request(after_request(d, Request::Hide), Request::Show)).0.visibility
            == Visibility::Visible,
        after_dispatch(after_request(after_request(d, Request::Hide), Request::Show)).1
            == Effect::Reveal,
        after_dispatch(after_dispatch(after_request(after_request(d, Request::Hide), Request::Show)).0)
            == (after_dispatch(after_request(after_request(d, Request::Hide), Request::Show)).0, Effect::Nothing),
{
}

/// A stop request is answered "ok" and, once dispatched, shuts the daemon down
/// whatever the visibility and whatever was pending before it.
pub proof fn stop_always_shuts_down(d: Daemon)
    requires
        d.ready,
    ensures
        reply_of(Request::Stop, d.visibility) == "ok"@,
        after_dispatch(after_request(d, Request::Stop)).1 == Effect::Shutdown,
{
}

/// What a starting daemon does about the control socket's path.
#[derive(Clone, Copy, Debug, PartialEq, Eq, Structural)]
pub enum BindStep {
    /// Nothing is there: bind.
    Bind,
    /// A file left by a daemon that is gone: remove it, then bind.
    ClearStaleAndBind,
    /// A live daemon answers there: leave its socket and PID file alone and exit.
    Refuse,
}

/// What to do about the socket's path, from whether something exists there
/// and whether a daemon answers on it.
pub fn bind_step(endpoint_exists: bool, endpoint_answers: bool) -> (r: BindStep)
    ensures
        r == (if endpoint_answers {
            BindStep::Refuse
        } else if endpoint_exists {
            BindStep::ClearStaleAndBind
        } else {
            BindStep::Bind
        }),
{
    if endpoint_answers {
        BindStep::Refuse
    } else if endpoint_exists {
        BindStep::ClearStaleAndBind
    } else {
        BindStep::Bind
    }
}

impl Daemon {
    /// A daemon that has just started: items visible, mailbox empty, no indicator yet.
    pub fn new() -> (r: Daemon)
        ensures
            r.pending == PendingCommand::Empty,
            r.visibility == Visibility::Visible,
            !r.ready,
    {
        Daemon { pending: PendingCommand::Empty, visibility: Visibility::Visible, ready: false }
    }

    /// Records that the indicator now exists on screen.
    pub fn indicator_created(&mut self)
        ensures
            *final(self) == (Daemon { ready: true, ..*old(self) }),
    {
        self.ready = true;
    }

    /// Puts a command in the mailbox, replacing whatever was there.
    pub fn stage(&mut self, cmd: PendingCommand)
        ensures
            *final(self) == (Daemon { pending: cmd, ..*old(self) }),
    {
        self.pending = cmd;
    }

    /// Takes the mailbox's content, leaving it empty.
    pub fn take_pending(&mut self) -> (r: PendingCommand)
        ensures
            r == old(self).pending,
            *final(self) == (Daemon { pending: PendingCommand::Empty, ..*old(self) }),
    {
        let c = self.pending;
        self.pending = PendingCommand::Empty;
        c
    }

    /// Handles one line read from the socket: stages the command it names and
    /// returns the reply, and whether the UI thread must be asked to dispatch.
    pub fn handle_line(&mut self, line: &str) -> (r: (&'static str, bool))
        ensures
            r.0@ == reply_of(request_of(trimmed(line@)), old(self).visibility),
            r.1 == staged_of(request_of(trimmed(line@))) is Some,
            *final(self) == after_request(*old(self), request_of(trimmed(line@))),
    {
        let req = parse_request(line);
        let text = reply(req, self.visibility);
        match staged_command(req) {
            Some(c) => {
                self.stage(c);
                (text, true)
            },
            None => (text, false),
        }
    }

    /// What the UI thread does when asked to dispatch: takes the mailbox's
    /// content and returns the effect to apply to the indicator.
    pub fn dispatch_pending(&mut self) -> (r: Effect)
        ensures
            (*final(self), r) == after_dispatch(*old(self)),
    {
        let c = self.take_pending();
        let (v, e) = dispatch(c, self.visibility, self.ready);
        self.visibility = v;
        e
    }

    /// A click on the divider: stages the opposite of the current visibility
    /// and dispatches it at once, as the click already runs on the UI thread.
    pub fn toggle(&mut self) -> (r: Effect)
        ensures
            (*final(self), r) == after_dispatch(
                Daemon { pending: toggle_of(old(self).visibility), ..*old(self) },
            ),
    {
        let c = toggle_command(self.visibility);
        self.stage(c);
        self.dispatch_pending()
    }
}

} // verus!
