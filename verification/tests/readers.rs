use std::collections::VecDeque;

use taida_lang_terminal::event::err as event_err;
use taida_lang_terminal::event::reader::{
    event_outcome_error, poll_step, read_event_precheck, resize_from_winsize, EventFramer,
    EventReadOutcome, FrameStep, PendingBytes, PollStep, MAX_EVENT_BYTES,
};
use taida_lang_terminal::event::{DecodedEvent, DecodedResize};
use taida_lang_terminal::key::err as key_err;
use taida_lang_terminal::key::reader::{
    key_outcome_error, raw_mode_failure, read_key_plan, reentry_failure, InflightGuard,
    InflightSlot, KeyFramer, KeyReadOutcome, KeyReadPlan, MAX_KEY_BYTES,
};
use taida_lang_terminal::key::{decode, KeyKind};

/// Reads one key from `stream` the way the addon does: one blocking
/// byte, then one byte per brief wait for as long as the key wants one.
fn read_key(stream: &mut VecDeque<u8>) -> (KeyKind, String, usize) {
    let first = stream.pop_front().expect("a first byte");
    let mut framer = KeyFramer::begin(first);
    let mut taken = 1;
    while framer.wants_byte() {
        let b = stream.pop_front();
        if b.is_some() {
            taken += 1;
        }
        framer.feed(b);
    }
    let k = framer.key();
    (k.kind, k.text, taken)
}

/// Reads one event from `pending` and then `stream`.
fn read_event(pending: &mut PendingBytes, stream: &mut VecDeque<u8>) -> DecodedEvent {
    let mut framer = EventFramer::start(pending);
    loop {
        match framer.step() {
            FrameStep::ReadBlocking => framer.first_byte(stream.pop_front().expect("a byte")),
            FrameStep::PollByte => framer.offer(stream.pop_front()),
            FrameStep::Decode => return framer.finish(pending),
        }
    }
}

// ── Keys ─────────────────────────────────────────────────────────

#[test]
fn held_down_arrow_keys_stay_separate() {
    let mut s: VecDeque<u8> = b"\x1b[A\x1b[A\x1b[B".iter().copied().collect();
    assert_eq!(read_key(&mut s).0, KeyKind::ArrowUp);
    assert_eq!(read_key(&mut s).0, KeyKind::ArrowUp);
    assert_eq!(read_key(&mut s).0, KeyKind::ArrowDown);
    assert!(s.is_empty());
}

#[test]
fn csi_key_stops_at_its_final_byte() {
    let mut s: VecDeque<u8> = b"\x1b[1;5Cxyz".iter().copied().collect();
    let (kind, _, taken) = read_key(&mut s);
    assert_eq!(kind, KeyKind::ArrowRight);
    assert_eq!(taken, 6);
    assert_eq!(s, b"xyz".iter().copied().collect::<VecDeque<u8>>());
}

#[test]
fn lone_escape_ends_on_timeout() {
    let mut s: VecDeque<u8> = b"\x1b".iter().copied().collect();
    let (kind, _, taken) = read_key(&mut s);
    assert_eq!(kind, KeyKind::Escape);
    assert_eq!(taken, 1);
}

#[test]
fn utf8_key_takes_its_continuation_bytes_only() {
    let mut s: VecDeque<u8> = "éa".bytes().collect();
    let (kind, text, taken) = read_key(&mut s);
    assert_eq!(kind, KeyKind::Char);
    assert_eq!(text, "é");
    assert_eq!(taken, 2);
    assert_eq!(read_key(&mut s).1, "a");
}

#[test]
fn oversized_escape_sequence_is_bounded_and_drained() {
    let mut payload = vec![0x1b, b'['];
    payload.extend(std::iter::repeat(b'1').take(40));
    payload.push(b'~');
    payload.push(b'q');
    let mut s: VecDeque<u8> = payload.into_iter().collect();
    let first = s.pop_front().unwrap();
    let mut framer = KeyFramer::begin(first);
    while framer.wants_byte() {
        framer.feed(s.pop_front());
    }
    // The rest of the sequence up to its final byte was discarded, the
    // next key survives.
    assert_eq!(s, vec![b'q'].into_iter().collect::<VecDeque<u8>>());
    assert_eq!(read_key(&mut s).1, "q");
    assert!(MAX_KEY_BYTES == 16);
}

#[test]
fn invalid_utf8_key_text_is_replaced() {
    let d = decode(&[0xC3]);
    assert_eq!(d.text, "\u{FFFD}");
}

#[test]
fn inflight_slot_refuses_a_second_reader() {
    let mut slot = InflightSlot::new();
    let g = InflightGuard::try_enter(&mut slot).expect("free slot");
    assert!(InflightGuard::try_enter(&mut slot).is_none());
    g.release(&mut slot);
    let g2 = InflightGuard::try_enter(&mut slot).expect("free again");
    g2.release(&mut slot);
}

#[test]
fn read_key_plan_branches() {
    match read_key_plan(false, false) {
        KeyReadPlan::Fail(f) => {
            assert_eq!(f.code, key_err::READ_KEY_NOT_A_TTY);
            assert_eq!(f.message, "ReadKeyNotATty: stdin is not a TTY");
        }
        other => panic!("unexpected {:?}", other),
    }
    assert!(matches!(read_key_plan(true, true), KeyReadPlan::ReadDirect));
    assert!(matches!(read_key_plan(true, false), KeyReadPlan::EnterRawThenRead));
}

#[test]
fn key_read_error_messages() {
    let f = raw_mode_failure(25);
    assert_eq!(f.code, key_err::READ_KEY_RAW_MODE);
    assert_eq!(f.message, "ReadKeyRawMode: failed to enter raw mode (errno 25)");
    let f = reentry_failure();
    assert_eq!(f.code, key_err::READ_KEY_INVALID_STATE);
    assert_eq!(f.message, "ReadKeyInvalidState: re-entrant ReadKey[]() call");
    let f = key_outcome_error(&KeyReadOutcome::Eof).unwrap();
    assert_eq!(f.code, key_err::READ_KEY_EOF);
    assert_eq!(f.message, "ReadKeyEof: stdin closed");
    let f = key_outcome_error(&KeyReadOutcome::Interrupted).unwrap();
    assert_eq!(f.code, key_err::READ_KEY_INTERRUPTED);
    assert_eq!(f.message, "ReadKeyInterrupted: read interrupted by signal");
    let f = key_outcome_error(&KeyReadOutcome::Io(5)).unwrap();
    assert_eq!(f.code, key_err::READ_KEY_RAW_MODE);
    assert_eq!(f.message, "ReadKeyRawMode: read failed (errno 5)");
    assert!(key_outcome_error(&KeyReadOutcome::Decoded(decode(b"a"))).is_none());
}

// ── Events ───────────────────────────────────────────────────────

#[test]
fn surplus_bytes_are_read_first_next_time() {
    let mut pending = PendingBytes::new();
    // ESC ESC: the first ESC is one event, the second waits.
    let mut s: VecDeque<u8> = b"\x1b\x1b".iter().copied().collect();
    match read_event(&mut pending, &mut s) {
        DecodedEvent::Key(k) => assert_eq!(k.kind, KeyKind::Escape),
        other => panic!("unexpected {:?}", other),
    }
    assert_eq!(pending.len(), 1);
    assert!(s.is_empty());
    // The waiting ESC is taken before anything new is read.
    let mut more: VecDeque<u8> = b"x".iter().copied().collect();
    match read_event(&mut pending, &mut more) {
        DecodedEvent::Key(k) => assert_eq!(k.kind, KeyKind::Escape),
        other => panic!("unexpected {:?}", other),
    }
    assert_eq!(pending.len(), 0);
    assert_eq!(more.len(), 1);
}

#[test]
fn event_framing_is_bounded() {
    let mut payload = vec![0x1b, b'['];
    payload.extend(std::iter::repeat(b'1').take(200));
    let mut s: VecDeque<u8> = payload.into_iter().collect();
    let mut pending = PendingBytes::new();
    let mut framer = EventFramer::start(&mut pending);
    let mut gathered = 0usize;
    loop {
        match framer.step() {
            FrameStep::ReadBlocking => {
                framer.first_byte(s.pop_front().unwrap());
                gathered += 1;
            }
            FrameStep::PollByte => {
                framer.offer(s.pop_front());
                gathered += 1;
            }
            FrameStep::Decode => break,
        }
    }
    assert_eq!(gathered, MAX_EVENT_BYTES);
    let _ = framer.finish(&mut pending);
}

#[test]
fn sgr_mouse_event_is_framed_whole() {
    let mut pending = PendingBytes::new();
    let mut s: VecDeque<u8> = b"\x1b[<0;10;20Mq".iter().copied().collect();
    match read_event(&mut pending, &mut s) {
        DecodedEvent::Mouse(m) => {
            assert_eq!((m.col, m.row), (10, 20));
        }
        other => panic!("unexpected {:?}", other),
    }
    assert_eq!(s.len(), 1);
}

#[test]
fn poll_step_branches() {
    let r = DecodedResize { cols: 80, rows: 24 };
    assert!(matches!(
        poll_step(true, true, 4, Some(r), false),
        PollStep::Finished(EventReadOutcome::Event(DecodedEvent::Resize(DecodedResize { cols: 80, rows: 24 })))
    ));
    assert!(matches!(
        poll_step(true, true, 4, None, true),
        PollStep::Finished(EventReadOutcome::Interrupted)
    ));
    assert!(matches!(poll_step(true, false, 9, None, true), PollStep::Finished(EventReadOutcome::Io(9))));
    assert!(matches!(
        poll_step(false, false, 0, Some(r), true),
        PollStep::Finished(EventReadOutcome::Event(DecodedEvent::Resize(_)))
    ));
    assert!(matches!(poll_step(false, false, 0, None, true), PollStep::ReadStdin));
    assert!(matches!(
        poll_step(false, false, 0, None, false),
        PollStep::Finished(EventReadOutcome::Interrupted)
    ));
}

#[test]
fn resize_requires_a_nonzero_size() {
    assert!(resize_from_winsize(false, 80, 24).is_none());
    assert!(resize_from_winsize(true, 0, 24).is_none());
    assert!(resize_from_winsize(true, 80, 0).is_none());
    let r = resize_from_winsize(true, 132, 43).unwrap();
    assert_eq!((r.cols, r.rows), (132, 43));
}

#[test]
fn read_event_precheck_order() {
    let f = read_event_precheck(false, false).unwrap();
    assert_eq!(f.code, event_err::READ_EVENT_NOT_A_TTY);
    assert_eq!(f.message, "ReadEventNotATty: stdin is not a TTY");
    let f = read_event_precheck(false, true).unwrap();
    assert_eq!(f.code, event_err::READ_EVENT_NOT_A_TTY);
    let f = read_event_precheck(true, false).unwrap();
    assert_eq!(f.code, event_err::READ_EVENT_NOT_IN_RAW_MODE);
    assert_eq!(
        f.message,
        "ReadEventNotInRawMode: raw mode must be active (call RawModeEnter first)"
    );
    assert!(read_event_precheck(true, true).is_none());
}

#[test]
fn event_read_error_messages() {
    let f = event_outcome_error(&EventReadOutcome::Eof).unwrap();
    assert_eq!(f.code, event_err::READ_EVENT_EOF);
    assert_eq!(f.message, "ReadEventEof: stdin closed");
    let f = event_outcome_error(&EventReadOutcome::Interrupted).unwrap();
    assert_eq!(f.code, event_err::READ_EVENT_INTERRUPTED);
    assert_eq!(f.message, "ReadEventInterrupted: read interrupted by signal");
    let f = event_outcome_error(&EventReadOutcome::Io(11)).unwrap();
    assert_eq!(f.code, event_err::READ_EVENT_READ_FAILED);
    assert_eq!(f.message, "ReadEventReadFailed: read(2) failed (errno 11)");
    let f = event_outcome_error(&EventReadOutcome::ResizeInitFailed).unwrap();
    assert_eq!(f.code, event_err::READ_EVENT_RESIZE_INIT_FAILED);
    assert_eq!(
        f.message,
        "ReadEventResizeInitFailed: SIGWINCH pipe/handler initialization failed"
    );
    let ev = EventReadOutcome::Event(DecodedEvent::Resize(DecodedResize { cols: 1, rows: 1 }));
    assert!(event_outcome_error(&ev).is_none());
}
