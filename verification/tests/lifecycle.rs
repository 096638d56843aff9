use dtrace_consumer::session::{dtrace_hdl, dtrace_handler};
use dtrace_consumer::engine::{
    DTRACE_VERSION, DTRACE_O_NODEV, DTRACE_O_LP64, DTRACE_O_ILP32, DEFAULT_RATE,
};
use dtrace_consumer::errors::{
    ErrorKind, EDT_VERSION, EDT_BADFLAGS, EDT_ACTIVE, EDT_NOTRUNNING, EDT_STOPPED, EDT_COMPILER,
    EDT_BADOPTNAME, EDT_BADOPTVAL, EDT_NOTSUP, EDT_DROPPED, EDT_UNKNOWN,
};
use dtrace_consumer::program::dtrace_probespec;

fn open() -> dtrace_hdl {
    dtrace_hdl::dtrace_open(DTRACE_VERSION, 0).unwrap()
}

#[test]
fn open_rejects_wrong_version() {
    let r = dtrace_hdl::dtrace_open(DTRACE_VERSION + 1, 0);
    let e = r.err().unwrap();
    assert_eq!(e.code, EDT_VERSION);
    assert_eq!(e.kind(), ErrorKind::OpenFailure);
}

#[test]
fn open_rejects_unknown_flag_bits() {
    let e = dtrace_hdl::dtrace_open(DTRACE_VERSION, 0x100).err().unwrap();
    assert_eq!(e.code, EDT_BADFLAGS);
    assert_eq!(e.kind(), ErrorKind::OpenFailure);
}

#[test]
fn open_rejects_conflicting_pointer_width() {
    let e = dtrace_hdl::dtrace_open(DTRACE_VERSION, DTRACE_O_LP64 | DTRACE_O_ILP32)
        .err()
        .unwrap();
    assert_eq!(e.code, EDT_BADFLAGS);
}

#[test]
fn open_accepts_recognized_flags() {
    let h = dtrace_hdl::dtrace_open(DTRACE_VERSION, DTRACE_O_NODEV | DTRACE_O_LP64).unwrap();
    assert_eq!(h.engine.errno, 0);
    assert_eq!(h.dtrace_close().teardown_count, 1);
}

#[test]
fn teardown_happens_exactly_once() {
    let mut h = open();
    h.dtrace_go().unwrap();
    assert_eq!(h.engine.teardown_count, 0);
    let e = h.dtrace_close();
    assert!(e.closed);
    assert_eq!(e.teardown_count, 1);
}

#[test]
fn teardown_happens_exactly_once_on_error_paths() {
    let mut h = open();
    // a failing lifecycle call between open and close does not release anything
    assert!(h.dtrace_stop().is_err());
    assert!(h.dtrace_go().is_ok());
    assert!(h.dtrace_go().is_err());
    assert_eq!(h.engine.teardown_count, 0);
    let e = h.dtrace_close();
    assert_eq!(e.teardown_count, 1);
}

#[test]
fn go_and_stop_follow_the_lifecycle() {
    let mut h = open();
    assert_eq!(h.dtrace_stop().err().unwrap().code, EDT_NOTRUNNING);
    h.dtrace_go().unwrap();
    assert_eq!(h.dtrace_go().err().unwrap().code, EDT_ACTIVE);
    h.dtrace_stop().unwrap();
    assert_eq!(h.dtrace_stop().err().unwrap().code, EDT_NOTRUNNING);
    assert_eq!(h.dtrace_go().err().unwrap().code, EDT_STOPPED);
    assert_eq!(h.dtrace_errno(), EDT_STOPPED);
}

#[test]
fn errmsg_agrees_between_global_and_fresh_handle() {
    let h = open();
    for code in 0..=13 {
        let global = dtrace_hdl::dtrace_errmsg(None, code);
        let scoped = dtrace_hdl::dtrace_errmsg(Some(&h), code);
        assert_eq!(global, scoped);
    }
}

#[test]
fn errmsg_reports_recorded_compiler_message() {
    let mut h = open();
    let e = h
        .dtrace_program_strcompile("no clauses here", dtrace_probespec::NoContext, 0, None)
        .err()
        .unwrap();
    assert_eq!(e.code, EDT_COMPILER);
    assert_eq!(e.kind(), ErrorKind::CompileFailure);
    assert_eq!(
        dtrace_hdl::dtrace_errmsg(Some(&h), EDT_COMPILER),
        "no probe clauses in program text"
    );
    assert_eq!(
        dtrace_hdl::dtrace_errmsg(None, EDT_COMPILER),
        "program failed to compile"
    );
}

#[test]
fn errmsg_covers_the_taxonomy() {
    assert_eq!(
        dtrace_hdl::dtrace_errmsg(None, EDT_VERSION),
        "requested version is not supported by this engine"
    );
    assert_eq!(dtrace_hdl::dtrace_errmsg(None, EDT_DROPPED), "buffered data was dropped by the engine");
    assert_eq!(dtrace_hdl::dtrace_errmsg(None, 999), "unknown engine failure");
    assert_eq!(dtrace_consumer::errors::Error { code: EDT_UNKNOWN }.kind(), ErrorKind::UnknownFailure);
}

#[test]
fn setopt_then_getopt_returns_the_integer_form() {
    let mut h = open();
    assert_eq!(h.dtrace_getopt("switchrate").unwrap(), DEFAULT_RATE);
    h.dtrace_setopt("switchrate", "500").unwrap();
    assert_eq!(h.dtrace_getopt("switchrate").unwrap(), 500);
    h.dtrace_setopt("bufsize", "0").unwrap();
    assert_eq!(h.dtrace_getopt("bufsize").unwrap(), 0);
    h.dtrace_setopt("aggrate", "999999999999999999").unwrap();
    assert_eq!(h.dtrace_getopt("aggrate").unwrap(), 999_999_999_999_999_999);
}

#[test]
fn unknown_option_names_fail_both_directions() {
    let mut h = open();
    let e1 = h.dtrace_setopt("nosuchopt", "1").err().unwrap();
    assert_eq!(e1.code, EDT_BADOPTNAME);
    assert_eq!(e1.kind(), ErrorKind::OptionFailure);
    let e2 = h.dtrace_getopt("nosuchopt").err().unwrap();
    assert_eq!(e2.code, EDT_BADOPTNAME);
    assert_eq!(h.dtrace_errno(), EDT_BADOPTNAME);
}

#[test]
fn malformed_option_values_are_rejected() {
    let mut h = open();
    assert_eq!(h.dtrace_setopt("statusrate", "12x").err().unwrap().code, EDT_BADOPTVAL);
    assert_eq!(h.dtrace_setopt("statusrate", "").err().unwrap().code, EDT_BADOPTVAL);
    // nineteen digits exceed what the engine parses
    assert_eq!(
        h.dtrace_setopt("statusrate", "1000000000000000000").err().unwrap().code,
        EDT_BADOPTVAL
    );
    // the stored value is untouched by the failed sets
    assert_eq!(h.dtrace_getopt("statusrate").unwrap(), DEFAULT_RATE);
}

#[test]
fn handler_registration_replaces_and_rejects_proc() {
    let mut h = open();
    h.dtrace_register_handler(dtrace_handler::Buffered(5)).unwrap();
    h.dtrace_register_handler(dtrace_handler::Buffered(9)).unwrap();
    assert_eq!(h.engine.h_buffered, Some(9));
    h.dtrace_register_handler(dtrace_handler::DropData(1)).unwrap();
    h.dtrace_register_handler(dtrace_handler::ErrData(2)).unwrap();
    h.dtrace_register_handler(dtrace_handler::SetOpt(3)).unwrap();
    let e = h.dtrace_register_handler(dtrace_handler::Proc(4)).err().unwrap();
    assert_eq!(e.code, EDT_NOTSUP);
    assert_eq!(e.kind(), ErrorKind::HandlerRegistrationFailure);
}

#[test]
fn sleep_advances_to_the_earliest_deadline() {
    let mut h = open();
    h.dtrace_setopt("switchrate", "500").unwrap();
    h.dtrace_go().unwrap();
    assert_eq!(h.engine.now, 0);
    h.dtrace_sleep();
    assert_eq!(h.engine.now, 500);
    // the earliest deadline is now in the past: sleeping again is a no-op
    h.dtrace_sleep();
    assert_eq!(h.engine.now, 500);
}
