use taida_lang_terminal::event::err as ee;
use taida_lang_terminal::key::err as ke;
use taida_lang_terminal::raw_mode::err as re;
use taida_lang_terminal::renderer::state::err as rne;
use taida_lang_terminal::size::err as se;
use taida_lang_terminal::tty::err as te;
use taida_lang_terminal::write::err as we;
use taida_lang_terminal::raw_mode::err as raw_mode_err;
use taida_lang_terminal::size::err as size_err;
use taida_lang_terminal::write::err as write_err;

#[test]
fn raw_mode_error_codes_are_frozen() {
    assert_eq!(raw_mode_err::RAW_MODE_NOT_A_TTY, 3001);
    assert_eq!(raw_mode_err::RAW_MODE_ALREADY_ACTIVE, 3002);
    assert_eq!(raw_mode_err::RAW_MODE_NOT_ACTIVE, 3003);
    assert_eq!(raw_mode_err::RAW_MODE_ENTER_FAILED, 3004);
    assert_eq!(raw_mode_err::RAW_MODE_LEAVE_FAILED, 3005);
}

#[test]
fn raw_mode_error_codes_in_3xxx_range() {
    const _: () = assert!(raw_mode_err::RAW_MODE_NOT_A_TTY >= 3000);
    const _: () = assert!(raw_mode_err::RAW_MODE_LEAVE_FAILED >= 3000);
}

#[test]
fn terminal_size_error_codes_are_frozen_v1() {
    assert_eq!(size_err::TERMINAL_SIZE_NOT_A_TTY, 2001);
    assert_eq!(size_err::TERMINAL_SIZE_IOCTL, 2002);
    const _: () = assert!(size_err::TERMINAL_SIZE_NOT_A_TTY >= 2000);
    const _: () = assert!(size_err::TERMINAL_SIZE_IOCTL >= 2000);
}

#[test]
fn write_error_codes_are_frozen() {
    assert_eq!(write_err::WRITE_FAILED, 5001);
    assert_eq!(write_err::WRITE_BUILD_VALUE, 5002);
    assert_eq!(write_err::WRITE_PANIC, 5003);
}

#[test]
fn error_code_ranges_are_frozen_unix() {

    assert_eq!(ke::READ_KEY_NOT_A_TTY, 1001);
    assert_eq!(ke::READ_KEY_RAW_MODE, 1002);
    assert_eq!(ke::READ_KEY_EOF, 1003);
    assert_eq!(ke::READ_KEY_INTERRUPTED, 1004);
    assert_eq!(ke::READ_KEY_PANIC, 1005);
    assert_eq!(ke::READ_KEY_INVALID_STATE, 1006);

    assert_eq!(se::TERMINAL_SIZE_NOT_A_TTY, 2001);
    assert_eq!(se::TERMINAL_SIZE_IOCTL, 2002);

    assert_eq!(te::IS_TERMINAL_INVALID_STREAM, 2101);
    assert_eq!(te::IS_TERMINAL_BUILD_VALUE, 2102);

    assert_eq!(re::RAW_MODE_NOT_A_TTY, 3001);
    assert_eq!(re::RAW_MODE_ALREADY_ACTIVE, 3002);
    assert_eq!(re::RAW_MODE_NOT_ACTIVE, 3003);
    assert_eq!(re::RAW_MODE_ENTER_FAILED, 3004);
    assert_eq!(re::RAW_MODE_LEAVE_FAILED, 3005);

    assert_eq!(ee::READ_EVENT_NOT_IN_RAW_MODE, 4001);
    assert_eq!(ee::READ_EVENT_NOT_A_TTY, 4002);
    assert_eq!(ee::READ_EVENT_READ_FAILED, 4003);
    assert_eq!(ee::READ_EVENT_EOF, 4004);
    assert_eq!(ee::READ_EVENT_INTERRUPTED, 4005);
    assert_eq!(ee::READ_EVENT_PANIC, 4006);
    assert_eq!(ee::READ_EVENT_RESIZE_INIT_FAILED, 4007);

    assert_eq!(we::WRITE_FAILED, 5001);
    assert_eq!(we::WRITE_BUILD_VALUE, 5002);
    assert_eq!(we::WRITE_PANIC, 5003);

    assert_eq!(rne::RENDERER_INVALID_ARG, 6001);
    assert_eq!(rne::RENDERER_OUT_OF_BOUNDS, 6002);
    assert_eq!(rne::RENDERER_INVALID_SIZE, 6003);
    assert_eq!(rne::RENDERER_BUILD_VALUE, 6004);
    assert_eq!(rne::RENDERER_PANIC, 6005);
}

#[test]
fn error_name_convention_lock() {
    let expected = [
        "IsTerminalInvalidStream",
        "IsTerminalBuildValue",
        "TerminalSizeNotATty",
        "TerminalSizeIoctl",
        "ReadKeyNotATty",
        "ReadKeyRawMode",
        "ReadKeyEof",
        "ReadKeyInterrupted",
        "ReadKeyPanic",
        "ReadKeyInvalidState",
        "RawModeNotATty",
        "RawModeAlreadyActive",
        "RawModeNotActive",
        "RawModeEnterFailed",
        "RawModeLeaveFailed",
        "ReadEventNotInRawMode",
        "ReadEventNotATty",
        "ReadEventReadFailed",
        "ReadEventEof",
        "ReadEventInterrupted",
        "ReadEventPanic",
        "ReadEventResizeInitFailed",
        "TerminalSizeUnsupported",
        "ReadKeyUnsupported",
        "WriteFailed",
        "WriteBuildValue",
        "WritePanic",
        "RendererInvalidArg",
        "RendererOutOfBounds",
        "RendererInvalidSize",
        "RendererBuildValue",
        "RendererPanic",
    ];
    let mut sorted = expected.to_vec();
    sorted.sort();
    for i in 0..sorted.len() - 1 {
        assert_ne!(
            sorted[i],
            sorted[i + 1],
            "duplicate error name: {}",
            sorted[i]
        );
    }
    assert_eq!(expected.len(), 32);
}
