use nanobar::client::{is_daemon_running, reply_text, request_line};
use nanobar::error::Error;
use nanobar::session::{reconfigure_outcome, start_poll, StartPoll, START_ATTEMPTS};

#[test]
fn running_only_on_pong() {
    assert!(is_daemon_running(&Ok("pong".to_string())));
    assert!(!is_daemon_running(&Ok("ok".to_string())));
    assert!(!is_daemon_running(&Ok("".to_string())));
    assert!(!is_daemon_running(&Err(Error::ProtocolTimeout)));
    assert!(!is_daemon_running(&Err(Error::ChannelUnavailable)));
}

#[test]
fn request_line_ends_with_newline() {
    assert_eq!(request_line("ping"), "ping\n");
    assert_eq!(request_line(""), "\n");
}

#[test]
fn reply_text_trims() {
    assert_eq!(reply_text("pong\n"), "pong");
    assert_eq!(reply_text("  hidden \r\n"), "hidden");
    assert_eq!(reply_text(""), "");
}

#[test]
fn error_messages() {
    assert_eq!(Error::ResolutionFailed.message(), "could not determine divider position for specified apps");
    assert_eq!(Error::PersistenceWriteFailed.message(), "failed to write position to defaults");
    assert_eq!(Error::StartupTimeout.message(), "daemon failed to start within 5 seconds");
    assert_eq!(Error::ProtocolTimeout.message(), "no reply from daemon");
}

#[test]
fn start_polling() {
    assert_eq!(start_poll(1, true), StartPoll::Ready);
    assert_eq!(start_poll(1, false), StartPoll::Wait);
    assert_eq!(start_poll(START_ATTEMPTS - 1, false), StartPoll::Wait);
    assert_eq!(start_poll(START_ATTEMPTS, false), StartPoll::GiveUp);
    assert_eq!(start_poll(START_ATTEMPTS, true), StartPoll::Ready);
    assert_eq!(START_ATTEMPTS, 50);
}

#[test]
fn reconfigure_reports_write_failure_first() {
    assert_eq!(reconfigure_outcome(true, Ok(())), Ok(()));
    assert_eq!(reconfigure_outcome(true, Err(Error::StartupTimeout)), Err(Error::StartupTimeout));
    assert_eq!(reconfigure_outcome(false, Ok(())), Err(Error::PersistenceWriteFailed));
    assert_eq!(reconfigure_outcome(false, Err(Error::StartupTimeout)), Err(Error::PersistenceWriteFailed));
}
