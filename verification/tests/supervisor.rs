use walcore::supervisor::{
    aws_secrets_vars, process_has_stopped, process_started, retry_tick, rust_env_vars,
    stop_action, InitialPidFile, PidFileRead, SignalOutcome, StopAction, StopSignal,
    DOT_EVERY_RETRIES, NOTICE_AFTER_RETRIES, RETRIES, RETRY_INTERVAL_MILLIS,
};

#[test]
fn poll_budget_is_ten_seconds_of_hundred_millisecond_ticks() {
    assert_eq!(RETRIES, 100);
    assert_eq!(RETRY_INTERVAL_MILLIS, 100);
}

#[test]
fn retry_tick_prints_dots_and_one_notice() {
    let t0 = retry_tick(0);
    assert!(t0.print_dot);
    assert!(!t0.print_notice);
    let t7 = retry_tick(7);
    assert!(!t7.print_dot);
    assert!(!t7.print_notice);
    let t50 = retry_tick(NOTICE_AFTER_RETRIES);
    assert!(t50.print_notice);
    assert!(t50.print_dot);
    assert_eq!(NOTICE_AFTER_RETRIES % DOT_EVERY_RETRIES, 0);
}

#[test]
fn started_needs_probe_and_matching_locked_pidfile() {
    // The readiness probe alone decides when no pidfile is watched.
    assert!(process_started(42, None, true));
    assert!(!process_started(42, None, false));
    // With a pidfile: it must be locked, by the child itself.
    assert!(process_started(
        42,
        Some(&PidFileRead::LockedByOtherProcess(42)),
        true
    ));
    assert!(!process_started(
        42,
        Some(&PidFileRead::LockedByOtherProcess(43)),
        true
    ));
    assert!(!process_started(42, Some(&PidFileRead::NotExist), true));
    // An unlocked pidfile cannot be trusted: not started.
    assert!(!process_started(
        42,
        Some(&PidFileRead::NotHeldByAnyProcess(42)),
        true
    ));
    assert!(!process_started(
        42,
        Some(&PidFileRead::LockedByOtherProcess(42)),
        false
    ));
}

#[test]
fn stop_signals_only_a_locked_pidfile() {
    assert_eq!(
        stop_action(false, &PidFileRead::NotExist),
        StopAction::AlreadyStopped
    );
    // Unlocked pidfile: already stopped, and the file is left alone.
    assert_eq!(
        stop_action(true, &PidFileRead::NotHeldByAnyProcess(17)),
        StopAction::AlreadyStopped
    );
    assert_eq!(
        stop_action(false, &PidFileRead::LockedByOtherProcess(17)),
        StopAction::Signal(17, StopSignal::Term)
    );
    assert_eq!(
        stop_action(true, &PidFileRead::LockedByOtherProcess(17)),
        StopAction::Signal(17, StopSignal::Quit)
    );
}

#[test]
fn stopped_when_probe_finds_no_process() {
    assert!(!process_has_stopped(SignalOutcome::Delivered));
    assert!(process_has_stopped(SignalOutcome::NoSuchProcess));
}

#[test]
fn pidfile_path_and_mode() {
    let create = InitialPidFile::Create("/tmp/a.pid".to_owned());
    let expect = InitialPidFile::Expect("/tmp/b.pid".to_owned());
    assert!(create.creates_pidfile());
    assert!(!expect.creates_pidfile());
    assert_eq!(create.path(), "/tmp/a.pid");
    assert_eq!(expect.path(), "/tmp/b.pid");
}

#[test]
fn backtrace_defaults_to_one_and_set_vars_pass_through() {
    let vars = rust_env_vars(None, None, None, None);
    assert_eq!(vars.len(), 1);
    assert_eq!(vars[0].0, "RUST_BACKTRACE");
    assert_eq!(vars[0].1, "1");

    let vars = rust_env_vars(
        Some("full".to_owned()),
        Some("profile".to_owned()),
        None,
        Some("debug".to_owned()),
    );
    assert_eq!(vars.len(), 3);
    assert_eq!(vars[0], ("RUST_BACKTRACE".to_owned(), "full".to_owned()));
    assert_eq!(vars[1], ("LLVM_PROFILE_FILE".to_owned(), "profile".to_owned()));
    assert_eq!(vars[2], ("RUST_LOG".to_owned(), "debug".to_owned()));
}

#[test]
fn cloud_credentials_forwarded_only_when_present() {
    assert_eq!(aws_secrets_vars(None, None, None).len(), 0);
    let vars = aws_secrets_vars(Some("key".to_owned()), None, Some("token".to_owned()));
    assert_eq!(vars.len(), 2);
    assert_eq!(vars[0].0, "AWS_ACCESS_KEY_ID");
    assert_eq!(vars[0].1, "key");
    assert_eq!(vars[1].0, "AWS_SESSION_TOKEN");
    assert_eq!(vars[1].1, "token");
}
