use taida_lang_terminal::size::err as size_err;
use taida_lang_terminal::size::{classify_size, size_failure, window_size, SizeOutcome};
use taida_lang_terminal::tty::err as tty_err;
use taida_lang_terminal::tty::invalid_stream_failure;

#[test]
fn non_tty_wins_over_any_query_result() {
    assert_eq!(classify_size(false, Ok((80, 24))), SizeOutcome::NotATty);
    assert_eq!(classify_size(false, Err(25)), SizeOutcome::NotATty);
}

#[test]
fn size_outcomes_of_a_tty() {
    assert_eq!(classify_size(true, Ok((80, 24))), SizeOutcome::Success { cols: 80, rows: 24 });
    assert_eq!(classify_size(true, Err(25)), SizeOutcome::IoctlFailed(25));
    assert_eq!(
        classify_size(true, Ok((0, 24))),
        SizeOutcome::DegenerateZero { ws_col: 0, ws_row: 24 }
    );
    assert_eq!(
        classify_size(true, Ok((80, 0))),
        SizeOutcome::DegenerateZero { ws_col: 80, ws_row: 0 }
    );
}

#[test]
fn size_failure_messages() {
    assert!(size_failure(SizeOutcome::Success { cols: 1, rows: 1 }).is_none());
    let f = size_failure(SizeOutcome::NotATty).unwrap();
    assert_eq!(f.code, size_err::TERMINAL_SIZE_NOT_A_TTY);
    assert_eq!(f.message, "TerminalSizeNotATty: stdout is not a TTY");
    let f = size_failure(SizeOutcome::IoctlFailed(25)).unwrap();
    assert_eq!(f.code, size_err::TERMINAL_SIZE_IOCTL);
    assert_eq!(f.message, "TerminalSizeIoctl: ioctl(TIOCGWINSZ) failed (errno 25)");
    let f = size_failure(SizeOutcome::DegenerateZero { ws_col: 0, ws_row: 24 }).unwrap();
    assert_eq!(f.code, size_err::TERMINAL_SIZE_IOCTL);
    assert_eq!(
        f.message,
        "TerminalSizeIoctl: kernel returned ws_col=0 ws_row=24 (zero rejected, no (80, 24) fallback)"
    );
}

#[test]
fn window_size_from_inclusive_edges() {
    assert_eq!(window_size(0, 0, 79, 23), Some((80, 24)));
    assert_eq!(window_size(10, 5, 10, 5), Some((1, 1)));
    assert_eq!(window_size(5, 0, 4, 23), None);
    assert_eq!(window_size(0, 5, 79, 3), None);
}

#[test]
fn invalid_stream_message_names_the_input() {
    let f = invalid_stream_failure("stdlog");
    assert_eq!(f.code, tty_err::IS_TERMINAL_INVALID_STREAM);
    assert_eq!(f.message, "IsTerminalInvalidStream: expected stdin|stdout|stderr, got stdlog");
}
