//! Decision rules of the background-process supervisor: how a start or stop
//! is polled, when a process counts as started or stopped, which signal a
//! stop sends, and which environment variables a supervised child receives.
//! Spawning, signalling and pidfile locking happen outside this crate; the
//! decisions between those steps are taken here.
//!
//! Pidfile discipline: a pidfile is trusted only while some process holds
//! the advisory lock on it. One that exists but is unlocked is neither used
//! nor deleted — the pid inside may have been recycled, and unlinking races
//! with a new holder creating the file.

use vstd::prelude::*;

verus! {

/// Who creates the pidfile of a supervised process: the supervisor itself,
/// or the child (which then also takes the lock).
#[derive(Clone, Debug, PartialEq, Eq)]
pub enum InitialPidFile {
    /// The supervisor claims the pidfile and hands the lock across exec.
    Create(String),
    /// The child writes and locks the pidfile; startup waits for that.
    Expect(String),
}

impl InitialPidFile {
    /// The pidfile's path, wherever it comes from.
    pub open spec fn path_spec(&self) -> Seq<char> {
        match self {
            InitialPidFile::Create(p) => p@,
            InitialPidFile::Expect(p) => p@,
        }
    }

    /// The pidfile to watch during startup.
    pub fn path(&self) -> (r: &String)
        ensures
            r@ == self.path_spec(),
    {
        match self {
            InitialPidFile::Create(p) => p,
            InitialPidFile::Expect(p) => p,
        }
    }

    /// Whether the supervisor must claim the pidfile before exec.
    pub fn creates_pidfile(&self) -> (r: bool)
        ensures
            r == (self is Create),
    {
        matches!(self, InitialPidFile::Create(_))
    }
}

/// What reading a pidfile found.
#[derive(Clone, Copy, Debug, PartialEq, Eq, Structural)]
pub enum PidFileRead {
    /// No pidfile present.
    NotExist,
    /// A pidfile exists but no live process holds its lock; its content
    /// cannot be trusted and the file must be left in place.
    NotHeldByAnyProcess(i32),
    /// A live process holds the lock; the pid read under it.
    LockedByOtherProcess(i32),
}

/// How long the supervisor polls for a start or stop, in seconds.
pub const RETRY_UNTIL_SECS: u64 = 10;

/// Pause between polls, in milliseconds.
pub const RETRY_INTERVAL_MILLIS: u64 = 100;

/// How many polls that makes.
pub const RETRIES: u64 = (RETRY_UNTIL_SECS * 1000) / RETRY_INTERVAL_MILLIS;

/// A progress dot is printed every this many polls.
pub const DOT_EVERY_RETRIES: u64 = 10;

/// A slow-start notice is printed at this poll.
pub const NOTICE_AFTER_RETRIES: u64 = 50;

/// What the poll loop shows the user at one tick.
#[derive(Clone, Copy, Debug, PartialEq, Eq, Structural)]
pub struct RetryTick {
    /// Tell the user the process is taking long (once, halfway through).
    pub print_notice: bool,
    /// Print a progress dot.
    pub print_dot: bool,
}

/// What to show at poll number `retry` (counted from zero).
pub fn retry_tick(retry: u64) -> (r: RetryTick)
    ensures
        r.print_notice == (retry == NOTICE_AFTER_RETRIES),
        r.print_dot == (retry % DOT_EVERY_RETRIES == 0),
{
    RetryTick {
        print_notice: retry == NOTICE_AFTER_RETRIES,
        print_dot: retry % DOT_EVERY_RETRIES == 0,
    }
}

/// Whether a spawned process counts as started: its own readiness probe
/// passed, and the pidfile to watch (if any) is locked by a live process
/// whose recorded pid is the child's. An unlocked or missing pidfile means
/// "not started yet", never an error.
pub fn process_started(pid: i32, pid_file_read: Option<&PidFileRead>, status_check_ok: bool) -> (r:
    bool)
    ensures
        r == (status_check_ok && match pid_file_read {
            None => true,
            Some(read) => read matches PidFileRead::LockedByOtherProcess(p) && p == pid,
        }),
{
    if !status_check_ok {
        return false;
    }
    match pid_file_read {
        None => true,
        Some(PidFileRead::LockedByOtherProcess(p)) => *p == pid,
        Some(_) => false,
    }
}

/// What a signal delivery attempt reported.
#[derive(Clone, Copy, Debug, PartialEq, Eq, Structural)]
pub enum SignalOutcome {
    /// The signal was delivered: the process exists.
    Delivered,
    /// No such process.
    NoSuchProcess,
}

/// Whether the process is gone, judged by probing it with a null signal.
pub fn process_has_stopped(outcome: SignalOutcome) -> (r: bool)
    ensures
        r == (outcome is NoSuchProcess),
{
    matches!(outcome, SignalOutcome::NoSuchProcess)
}

/// The signal a stop request sends.
#[derive(Clone, Copy, Debug, PartialEq, Eq, Structural)]
pub enum StopSignal {
    /// Graceful stop (SIGTERM).
    Term,
    /// Immediate stop (SIGQUIT).
    Quit,
}

/// What a stop request does, given the pidfile.
#[derive(Clone, Copy, Debug, PartialEq, Eq, Structural)]
pub enum StopAction {
    /// Nothing runs (no pidfile, or an unlocked one, which is also left in
    /// place): the stop already succeeded.
    AlreadyStopped,
    /// Signal this pid, then poll until it is gone.
    Signal(i32, StopSignal),
}

/// Decide a stop request: only a pidfile held under lock names a process to
/// signal; `immediate` picks the immediate signal over the graceful one.
pub fn stop_action(immediate: bool, read: &PidFileRead) -> (r: StopAction)
    ensures
        r == match *read {
            PidFileRead::NotExist => StopAction::AlreadyStopped,
            PidFileRead::NotHeldByAnyProcess(_) => StopAction::AlreadyStopped,
            PidFileRead::LockedByOtherProcess(pid) => StopAction::Signal(
                pid,
                if immediate {
                    StopSignal::Quit
                } else {
                    StopSignal::Term
                },
            ),
        },
{
    match read {
        PidFileRead::NotExist => StopAction::AlreadyStopped,
        PidFileRead::NotHeldByAnyProcess(_) => StopAction::AlreadyStopped,
        PidFileRead::LockedByOtherProcess(pid) => StopAction::Signal(
            *pid,
            if immediate {
                StopSignal::Quit
            } else {
                StopSignal::Term
            },
        ),
    }
}

/// The environment a supervised child starts with, from the supervisor's own
/// environment: the backtrace setting passed through (defaulting to "1"),
/// then each of the profiling, failpoint and logging variables that is set.
pub open spec fn rust_env_spec(
    backtrace: Option<String>,
    profile_file: Option<String>,
    failpoints: Option<String>,
    rust_log: Option<String>,
) -> Seq<(Seq<char>, Seq<char>)> {
    let head = seq![
        (
            "RUST_BACKTRACE"@,
            match backtrace {
                Some(v) => v@,
                None => "1"@,
            },
        ),
    ];
    let s1 = match profile_file {
        Some(v) => head.push(("LLVM_PROFILE_FILE"@, v@)),
        None => head,
    };
    let s2 = match failpoints {
        Some(v) => s1.push(("FAILPOINTS"@, v@)),
        None => s1,
    };
    match rust_log {
        Some(v) => s2.push(("RUST_LOG"@, v@)),
        None => s2,
    }
}

/// The variable pairs of `rust_env_spec`, as owned strings in order.
pub fn rust_env_vars(
    backtrace: Option<String>,
    profile_file: Option<String>,
    failpoints: Option<String>,
    rust_log: Option<String>,
) -> (r: Vec<(String, String)>)
    ensures
        r@.map_values(|p: (String, String)| (p.0@, p.1@)) == rust_env_spec(
            backtrace,
            profile_file,
            failpoints,
            rust_log,
        ),
{
    let ghost gb = backtrace;
    let ghost gp = profile_file;
    let ghost gf = failpoints;
    let ghost gl = rust_log;
    let mut r: Vec<(String, String)> = Vec::new();
    let bt = match backtrace {
        Some(v) => v,
        None => "1".to_owned(),
    };
    r.push(("RUST_BACKTRACE".to_owned(), bt));
    if let Some(v) = profile_file {
        r.push(("LLVM_PROFILE_FILE".to_owned(), v));
    }
    if let Some(v) = failpoints {
        r.push(("FAILPOINTS".to_owned(), v));
    }
    if let Some(v) = rust_log {
        r.push(("RUST_LOG".to_owned(), v));
    }
    proof {
        assert(r@.map_values(|p: (String, String)| (p.0@, p.1@)) =~= rust_env_spec(gb, gp, gf, gl));
    }
    r
}

/// The cloud credential variables forwarded to a supervised child: each one
/// that is set in the supervisor's environment, in a fixed order.
pub open spec fn aws_env_spec(
    access_key_id: Option<String>,
    secret_access_key: Option<String>,
    session_token: Option<String>,
) -> Seq<(Seq<char>, Seq<char>)> {
    let s0 = Seq::<(Seq<char>, Seq<char>)>::empty();
    let s1 = match access_key_id {
        Some(v) => s0.push(("AWS_ACCESS_KEY_ID"@, v@)),
        None => s0,
    };
    let s2 = match secret_access_key {
        Some(v) => s1.push(("AWS_SECRET_ACCESS_KEY"@, v@)),
        None => s1,
    };
    match session_token {
        Some(v) => s2.push(("AWS_SESSION_TOKEN"@, v@)),
        None => s2,
    }
}

/// The variable pairs of `aws_env_spec`, as owned strings in order.
pub fn aws_secrets_vars(
    access_key_id: Option<String>,
    secret_access_key: Option<String>,
    session_token: Option<String>,
) -> (r: Vec<(String, String)>)
    ensures
        r@.map_values(|p: (String, String)| (p.0@, p.1@)) == aws_env_spec(
            access_key_id,
            secret_access_key,
            session_token,
        ),
{
    let ghost ga = access_key_id;
    let ghost gs = secret_access_key;
    let ghost gt = session_token;
    let mut r: Vec<(String, String)> = Vec::new();
    if let Some(v) = access_key_id {
        r.push(("AWS_ACCESS_KEY_ID".to_owned(), v));
    }
    if let Some(v) = secret_access_key {
        r.push(("AWS_SECRET_ACCESS_KEY".to_owned(), v));
    }
    if let Some(v) = session_token {
        r.push(("AWS_SESSION_TOKEN".to_owned(), v));
    }
    proof {
        assert(r@.map_values(|p: (String, String)| (p.0@, p.1@)) =~= aws_env_spec(ga, gs, gt));
    }
    r
}

} // verus!
