use walcore::redo_io::{FdEvents, RedoIo, RedoPollEvents};
use walcore::walredo::{WalRedoError, BLCKSZ};

fn quiet() -> FdEvents {
    FdEvents {
        ready: false,
        err: false,
        hup: false,
    }
}

fn ready() -> FdEvents {
    FdEvents {
        ready: true,
        err: false,
        hup: false,
    }
}

fn hup() -> FdEvents {
    FdEvents {
        ready: false,
        err: false,
        hup: true,
    }
}

fn events(n_ready: u32, stdout: FdEvents, stderr: FdEvents, stdin: FdEvents) -> RedoPollEvents {
    RedoPollEvents {
        n_ready,
        stdout,
        stderr,
        stdin,
    }
}

#[test]
fn poll_timeout_fails_the_request() {
    let io = RedoIo::new(100, 0);
    let ev = events(0, quiet(), quiet(), quiet());
    assert_eq!(io.on_poll(&ev), Err(WalRedoError::Timeout));
}

#[test]
fn stderr_is_drained_before_anything_else() {
    let io = RedoIo::new(100, 0);
    let ev = events(2, ready(), ready(), ready());
    assert_eq!(io.on_poll(&ev), Ok(true));
    // While stderr yields bytes, nothing else is looked at.
    assert!(io.stderr_keeps_draining(17));
    assert!(!io.stderr_keeps_draining(0));
}

#[test]
fn stderr_hangup_is_a_broken_pipe() {
    let io = RedoIo::new(100, 0);
    let ev = events(1, ready(), hup(), ready());
    assert_eq!(io.on_poll(&ev), Err(WalRedoError::BrokenPipe));
}

#[test]
fn stdin_writes_only_while_bytes_remain() {
    let mut io = RedoIo::new(10, 4);
    let ev = events(1, quiet(), quiet(), ready());
    assert_eq!(io.stdin_action(&ev), Ok(true));
    io.record_write(6);
    assert_eq!(io.nwrite, 10);
    // Request fully written: stdin is no longer watched, a hang-up there is
    // no longer an error.
    assert_eq!(io.poll_nfds(), 2);
    let ev = events(1, quiet(), quiet(), hup());
    assert_eq!(io.stdin_action(&ev), Ok(false));
}

#[test]
fn stdin_hangup_with_bytes_left_is_a_broken_pipe() {
    let io = RedoIo::new(10, 4);
    assert_eq!(io.poll_nfds(), 3);
    let ev = events(1, quiet(), quiet(), hup());
    assert_eq!(io.stdin_action(&ev), Err(WalRedoError::BrokenPipe));
}

#[test]
fn stdout_hangup_before_full_page_is_a_broken_pipe() {
    let io = RedoIo::new(10, 10);
    let ev = events(1, hup(), quiet(), quiet());
    assert_eq!(io.stdout_action(&ev), Err(WalRedoError::BrokenPipe));
}

#[test]
fn exchange_finishes_at_a_full_page() {
    let mut io = RedoIo::new(10, 10);
    assert!(!io.finished());
    let ev = events(1, ready(), quiet(), quiet());
    assert_eq!(io.stdout_action(&ev), Ok(true));
    io.record_read(4000);
    assert!(!io.finished());
    io.record_read(BLCKSZ - 4000);
    assert!(io.finished());
}
