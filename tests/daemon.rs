use nanobar::client::is_daemon_running;
use nanobar::daemon::{bind_step, BindStep};
use nanobar::daemon::{
    dispatch, staged_command, toggle_command, Daemon, Effect, PendingCommand, GLYPH_HIDDEN,
    GLYPH_VISIBLE, PUSHER_EXPANDED,
};
use nanobar::error::Error;
use nanobar::protocol::{parse_request, parse_trimmed, reply, Request, Visibility};
use nanobar::text::same_text;

fn started() -> Daemon {
    let mut d = Daemon::new();
    d.indicator_created();
    d
}

#[test]
fn parses_each_request() {
    assert_eq!(parse_trimmed("ping"), Request::Ping);
    assert_eq!(parse_trimmed("hide"), Request::Hide);
    assert_eq!(parse_trimmed("show"), Request::Show);
    assert_eq!(parse_trimmed("stop"), Request::Stop);
    assert_eq!(parse_trimmed("state"), Request::State);
    assert_eq!(parse_trimmed("HIDE"), Request::Unknown);
    assert_eq!(parse_trimmed(""), Request::Unknown);
    assert_eq!(parse_trimmed("hide me"), Request::Unknown);
}

#[test]
fn parse_request_trims_the_line() {
    assert_eq!(parse_request("hide\n"), Request::Hide);
    assert_eq!(parse_request("  state \r\n"), Request::State);
    assert_eq!(parse_request("\tping"), Request::Ping);
    assert_eq!(parse_request("pin g\n"), Request::Unknown);
}

#[test]
fn replies_follow_the_table() {
    assert_eq!(reply(Request::Ping, Visibility::Visible), "pong");
    assert_eq!(reply(Request::Hide, Visibility::Visible), "ok");
    assert_eq!(reply(Request::Show, Visibility::Hidden), "ok");
    assert_eq!(reply(Request::Stop, Visibility::Hidden), "ok");
    assert_eq!(reply(Request::State, Visibility::Hidden), "hidden");
    assert_eq!(reply(Request::State, Visibility::Visible), "visible");
    assert_eq!(reply(Request::Unknown, Visibility::Visible), "unknown");
}

#[test]
fn same_text_compares_characters() {
    assert!(same_text("nanobar", "nanobar"));
    assert!(!same_text("nanobar", "nanobars"));
    assert!(!same_text("Nanobar", "nanobar"));
    assert!(same_text("", ""));
}

#[test]
fn dispatch_transitions() {
    assert_eq!(dispatch(PendingCommand::Hide, Visibility::Visible, true), (Visibility::Hidden, Effect::Conceal));
    assert_eq!(dispatch(PendingCommand::Show, Visibility::Hidden, true), (Visibility::Visible, Effect::Reveal));
    assert_eq!(dispatch(PendingCommand::Stop, Visibility::Hidden, true), (Visibility::Visible, Effect::Shutdown));
    assert_eq!(dispatch(PendingCommand::Empty, Visibility::Hidden, true), (Visibility::Hidden, Effect::Nothing));
    assert_eq!(dispatch(PendingCommand::Hide, Visibility::Visible, false), (Visibility::Visible, Effect::Nothing));
}

#[test]
fn staged_commands() {
    assert_eq!(staged_command(Request::Hide), Some(PendingCommand::Hide));
    assert_eq!(staged_command(Request::Show), Some(PendingCommand::Show));
    assert_eq!(staged_command(Request::Stop), Some(PendingCommand::Stop));
    assert_eq!(staged_command(Request::Ping), None);
    assert_eq!(staged_command(Request::State), None);
    assert_eq!(staged_command(Request::Unknown), None);
}

#[test]
fn effects_set_pusher_and_glyph() {
    assert_eq!(Effect::Conceal.pusher_length(), Some(PUSHER_EXPANDED));
    assert_eq!(PUSHER_EXPANDED, 10000);
    assert_eq!(Effect::Reveal.pusher_length(), Some(0));
    assert_eq!(Effect::Shutdown.pusher_length(), Some(0));
    assert_eq!(Effect::Nothing.pusher_length(), None);
    assert_eq!(Effect::Conceal.glyph(), Some(GLYPH_HIDDEN));
    assert_eq!(Effect::Reveal.glyph(), Some(GLYPH_VISIBLE));
    assert_eq!(GLYPH_HIDDEN, '\u{2039}');
    assert_eq!(GLYPH_VISIBLE, '\u{203a}');
    assert_eq!(Effect::Shutdown.glyph(), None);
}

#[test]
fn codes_round_trip() {
    for c in [PendingCommand::Empty, PendingCommand::Hide, PendingCommand::Show, PendingCommand::Stop] {
        assert_eq!(PendingCommand::from_code(c.code()), c);
    }
    assert_eq!(PendingCommand::Hide.code(), 1);
    assert_eq!(PendingCommand::from_code(9), PendingCommand::Empty);
    assert_eq!(Visibility::from_code(Visibility::Hidden.code()), Visibility::Hidden);
    assert_eq!(Visibility::from_code(Visibility::Visible.code()), Visibility::Visible);
    assert_eq!(Visibility::from_code(7), Visibility::Visible);
}

#[test]
fn repeated_hide_while_hidden_changes_nothing() {
    let mut d = started();
    assert_eq!(d.handle_line("hide\n"), ("ok", true));
    assert_eq!(d.dispatch_pending(), Effect::Conceal);
    assert_eq!(d.visibility, Visibility::Hidden);
    for _ in 0..3 {
        assert_eq!(d.handle_line("hide\n"), ("ok", true));
        d.dispatch_pending();
        assert_eq!(d.visibility, Visibility::Hidden);
        assert_eq!(d.handle_line("state\n"), ("hidden", false));
    }
}

#[test]
fn hide_then_show_before_dispatch_ends_visible() {
    let mut d = started();
    assert_eq!(d.handle_line("hide\n"), ("ok", true));
    assert_eq!(d.handle_line("state\n"), ("visible", false));
    assert_eq!(d.handle_line("show\n"), ("ok", true));
    assert_eq!(d.handle_line("state\n"), ("visible", false));
    assert_eq!(d.dispatch_pending(), Effect::Reveal);
    assert_eq!(d.dispatch_pending(), Effect::Nothing);
    assert_eq!(d.visibility, Visibility::Visible);
    assert_eq!(d.pending, PendingCommand::Empty);
}

#[test]
fn commands_before_indicator_are_dropped() {
    let mut d = Daemon::new();
    assert_eq!(d.handle_line("hide\n"), ("ok", true));
    assert_eq!(d.dispatch_pending(), Effect::Nothing);
    assert_eq!(d.visibility, Visibility::Visible);
    assert_eq!(d.pending, PendingCommand::Empty);
    d.indicator_created();
    assert_eq!(d.dispatch_pending(), Effect::Nothing);
}

#[test]
fn unknown_lines_get_unknown() {
    let mut d = started();
    assert_eq!(d.handle_line("reboot\n"), ("unknown", false));
    assert_eq!(d.pending, PendingCommand::Empty);
    assert_eq!(d.handle_line("ping\n"), ("pong", false));
}

#[test]
fn toggle_flips_visibility() {
    let mut d = started();
    assert_eq!(toggle_command(Visibility::Visible), PendingCommand::Hide);
    assert_eq!(toggle_command(Visibility::Hidden), PendingCommand::Show);
    assert_eq!(d.toggle(), Effect::Conceal);
    assert_eq!(d.visibility, Visibility::Hidden);
    assert_eq!(d.toggle(), Effect::Reveal);
    assert_eq!(d.visibility, Visibility::Visible);
}

#[test]
fn take_pending_empties_the_slot() {
    let mut d = started();
    d.stage(PendingCommand::Hide);
    d.stage(PendingCommand::Stop);
    assert_eq!(d.take_pending(), PendingCommand::Stop);
    assert_eq!(d.take_pending(), PendingCommand::Empty);
}

#[test]
fn end_to_end_session() {
    let mut d = started();
    assert_eq!(d.handle_line("state\n"), ("visible", false));
    assert_eq!(d.handle_line("hide\n"), ("ok", true));
    assert_eq!(d.dispatch_pending(), Effect::Conceal);
    assert_eq!(d.handle_line("state\n"), ("hidden", false));
    assert_eq!(d.handle_line("stop\n"), ("ok", true));
    assert_eq!(d.dispatch_pending(), Effect::Shutdown);
    // The process is gone: the next ping cannot connect.
    assert!(!is_daemon_running(&Err(Error::ChannelUnavailable)));
    assert_eq!(Error::ChannelUnavailable.message(), "daemon not running (use 'nanobar start' first)");
}

#[test]
fn second_daemon_leaves_live_socket_alone() {
    assert_eq!(bind_step(true, true), BindStep::Refuse);
    assert_eq!(bind_step(true, false), BindStep::ClearStaleAndBind);
    assert_eq!(bind_step(false, false), BindStep::Bind);
}

#[test]
fn stop_shuts_down_from_any_state() {
    for vis in [Visibility::Visible, Visibility::Hidden] {
        let mut d = started();
        d.visibility = vis;
        d.stage(PendingCommand::Hide);
        assert_eq!(d.handle_line("stop\n"), ("ok", true));
        assert_eq!(d.dispatch_pending(), Effect::Shutdown);
    }
}
