//! Decisions of the redo I/O loop.
//!
//! One request to the external replay process is an exchange over three
//! non-blocking pipes: the request bytes go out on its stdin, the 8 KiB
//! result comes back on its stdout, and diagnostics arrive on its stderr.
//! The loop polls the pipes and acts on what poll reports. The polling,
//! reading and writing happen outside this crate; every decision in between
//! is taken here, over the two counters the loop maintains: how much of the
//! request has been written and how much of the result has been read.
//!
//! Order of business after each poll round: a timed-out poll fails the
//! request; stderr is drained first, and as long as it yields bytes nothing
//! else is looked at, so diagnostics are never lost; then the next request
//! chunk is written if stdin is ready; then the result is read. A pipe that
//! hangs up while still needed fails the request.

use vstd::prelude::*;

use crate::walredo::{WalRedoError, BLCKSZ};

verus! {

/// What one poll round reported for a single pipe.
#[derive(Clone, Copy, Debug, PartialEq, Eq, Structural)]
pub struct FdEvents {
    /// The pipe is ready for its operation (readable or writable).
    pub ready: bool,
    /// The pipe is in an error state; treated like readiness so the
    /// following read or write surfaces the error.
    pub err: bool,
    /// The peer closed its end.
    pub hup: bool,
}

/// What one poll round reported for the three pipes.
#[derive(Clone, Copy, Debug, PartialEq, Eq, Structural)]
pub struct RedoPollEvents {
    /// How many pipes reported events; zero means the poll timed out.
    pub n_ready: u32,
    pub stdout: FdEvents,
    pub stderr: FdEvents,
    pub stdin: FdEvents,
}

/// Progress of one request's exchange with the replay process.
pub struct RedoIo {
    /// Total bytes of the framed request.
    pub writebuf_len: usize,
    /// Bytes of the request written so far.
    pub nwrite: usize,
    /// Bytes of the result page read so far.
    pub nresult: usize,
}

impl RedoIo {
    pub open spec fn wf(&self) -> bool {
        self.nwrite <= self.writebuf_len && self.nresult <= BLCKSZ
    }

    /// Start an exchange; `first_write` bytes of the request were already
    /// written blindly before the first poll.
    pub fn new(writebuf_len: usize, first_write: usize) -> (r: RedoIo)
        requires
            first_write <= writebuf_len,
        ensures
            r == (RedoIo { writebuf_len, nwrite: first_write, nresult: 0 }),
            r.wf(),
    {
        RedoIo { writebuf_len, nwrite: first_write, nresult: 0 }
    }

    /// The exchange is complete once the whole result page has arrived.
    pub fn finished(&self) -> (r: bool)
        ensures
            r == (self.nresult == BLCKSZ),
    {
        self.nresult == BLCKSZ
    }

    /// Whether stdin still needs watching: some of the request is unwritten.
    pub fn wants_stdin(&self) -> (r: bool)
        ensures
            r == (self.nwrite < self.writebuf_len),
    {
        self.nwrite < self.writebuf_len
    }

    /// How many pipes to poll: stdout and stderr always, stdin only while
    /// request bytes remain.
    pub fn poll_nfds(&self) -> (r: usize)
        ensures
            r == if self.nwrite < self.writebuf_len {
                3usize
            } else {
                2usize
            },
    {
        if self.nwrite < self.writebuf_len {
            3
        } else {
            2
        }
    }

    /// First decision after a poll round: a round with no events is the
    /// redo timeout; otherwise stderr comes first — drain it while it has
    /// data or an error to report, and fail if it hung up instead.
    pub fn on_poll(&self, ev: &RedoPollEvents) -> (r: Result<bool, WalRedoError>)
        ensures
            r == if ev.n_ready == 0 {
                Err::<bool, WalRedoError>(WalRedoError::Timeout)
            } else if ev.stderr.ready || ev.stderr.err {
                Ok::<bool, WalRedoError>(true)
            } else if ev.stderr.hup {
                Err::<bool, WalRedoError>(WalRedoError::BrokenPipe)
            } else {
                Ok::<bool, WalRedoError>(false)
            },
    {
        if ev.n_ready == 0 {
            return Err(WalRedoError::Timeout);
        }
        if ev.stderr.ready || ev.stderr.err {
            Ok(true)
        } else if ev.stderr.hup {
            Err(WalRedoError::BrokenPipe)
        } else {
            Ok(false)
        }
    }

    /// After reading stderr: while it yields bytes, poll again before
    /// touching stdin or stdout, so the process's diagnostics are captured
    /// even when it is about to die.
    pub fn stderr_keeps_draining(&self, n: usize) -> (r: bool)
        ensures
            r == (n > 0),
    {
        n > 0
    }

    /// Whether to write now: only while request bytes remain, and only when
    /// poll reported stdin writable (or in error). A hang-up with bytes
    /// still to write fails the request.
    pub fn stdin_action(&self, ev: &RedoPollEvents) -> (r: Result<bool, WalRedoError>)
        ensures
            r == if self.nwrite >= self.writebuf_len {
                Ok::<bool, WalRedoError>(false)
            } else if ev.stdin.ready || ev.stdin.err {
                Ok::<bool, WalRedoError>(true)
            } else if ev.stdin.hup {
                Err::<bool, WalRedoError>(WalRedoError::BrokenPipe)
            } else {
                Ok::<bool, WalRedoError>(false)
            },
    {
        if self.nwrite >= self.writebuf_len {
            Ok(false)
        } else if ev.stdin.ready || ev.stdin.err {
            Ok(true)
        } else if ev.stdin.hup {
            Err(WalRedoError::BrokenPipe)
        } else {
            Ok(false)
        }
    }

    /// Account for `n` request bytes written.
    pub fn record_write(&mut self, n: usize)
        requires
            old(self).wf(),
            n <= old(self).writebuf_len - old(self).nwrite,
        ensures
            final(self).nwrite == old(self).nwrite + n,
            final(self).writebuf_len == old(self).writebuf_len,
            final(self).nresult == old(self).nresult,
            final(self).wf(),
    {
        self.nwrite = self.nwrite + n;
    }

    /// Whether to read the result now: when poll reported stdout readable
    /// (or in error). A hang-up before the page is complete fails the
    /// request.
    pub fn stdout_action(&self, ev: &RedoPollEvents) -> (r: Result<bool, WalRedoError>)
        ensures
            r == if ev.stdout.ready || ev.stdout.err {
                Ok::<bool, WalRedoError>(true)
            } else if ev.stdout.hup {
                Err::<bool, WalRedoError>(WalRedoError::BrokenPipe)
            } else {
                Ok::<bool, WalRedoError>(false)
            },
    {
        if ev.stdout.ready || ev.stdout.err {
            Ok(true)
        } else if ev.stdout.hup {
            Err(WalRedoError::BrokenPipe)
        } else {
            Ok(false)
        }
    }

    /// Account for `n` result bytes read.
    pub fn record_read(&mut self, n: usize)
        requires
            old(self).wf(),
            n <= BLCKSZ - old(self).nresult,
        ensures
            final(self).nresult == old(self).nresult + n,
            final(self).writebuf_len == old(self).writebuf_len,
            final(self).nwrite == old(self).nwrite,
            final(self).wf(),
    {
        self.nresult = self.nresult + n;
    }
}

} // verus!
