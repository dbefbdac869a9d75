//! Instance startup decisions: recognising startup completion and the
//! default credentials in an instance's output, the environment a launched
//! instance gets, and how launch and shutdown failures are reported.

use vstd::prelude::*;
use vstd::string::*;

use crate::error::{detail_payload, AppError, ErrorKind};
use crate::text::{
    char_is_ws, chars_of, decimal, find_char, find_seq_vec, first_occurrence, is_ws,
    string_from_chars, str_to_string, subvec, trim_start, trim_start_vec, u64_to_decimal,
};

verus! {

/// A line marks a completed startup when it contains `AstrBot started.` or
/// `AstrBot 启动完成`.
pub open spec fn is_startup_line(line: Seq<char>) -> bool {
    first_occurrence(line, "AstrBot started."@) is Some || first_occurrence(
        line,
        "AstrBot 启动完成"@,
    ) is Some
}

pub fn is_startup_completion_log(line: &str) -> (b: bool)
    ensures
        b == is_startup_line(line@),
{
    let cs = chars_of(line);
    find_seq_vec(&cs, &chars_of("AstrBot started.")).is_some() || find_seq_vec(
        &cs,
        &chars_of("AstrBot 启动完成"),
    ).is_some()
}

/// Quote and punctuation characters stripped around a credential value.
pub open spec fn credential_punct(c: char) -> bool {
    c == '"' || c == '\u{27}' || c == '`' || c == ',' || c == '，' || c == '。' || c == ';' || c == '；'
}

pub open spec fn trim_punct_start(s: Seq<char>) -> Seq<char>
    decreases s.len(),
{
    if s.len() > 0 && credential_punct(s[0]) {
        trim_punct_start(s.subrange(1, s.len() as int))
    } else {
        s
    }
}

pub open spec fn trim_punct_end(s: Seq<char>) -> Seq<char>
    decreases s.len(),
{
    if s.len() > 0 && credential_punct(s.last()) {
        trim_punct_end(s.drop_last())
    } else {
        s
    }
}

/// Index of the first whitespace character, or the length.
pub open spec fn first_ws(s: Seq<char>) -> int
    decreases s.len(),
{
    if s.len() == 0 {
        0
    } else if is_ws(s[0]) {
        0
    } else {
        1 + first_ws(s.subrange(1, s.len() as int))
    }
}

/// The first whitespace-separated word, if any.
pub open spec fn first_word(s: Seq<char>) -> Option<Seq<char>> {
    let t = trim_start(s);
    if t.len() == 0 {
        None
    } else {
        Some(t.take(first_ws(t)))
    }
}

/// After an optional `:` or `：` separator, the first word without
/// surrounding quotes or punctuation; `None` when nothing remains.
pub open spec fn credential_spec(raw: Seq<char>) -> Option<Seq<char>> {
    let v = trim_start(raw);
    let rest = if v.len() > 0 && (v[0] == ':' || v[0] == '：') {
        v.subrange(1, v.len() as int)
    } else {
        v
    };
    match first_word(rest) {
        None => None,
        Some(w) => {
            let token = trim_punct_end(trim_punct_start(w));
            if token.len() == 0 {
                None
            } else {
                Some(token)
            }
        },
    }
}

fn is_punct(c: char) -> (b: bool)
    ensures
        b == credential_punct(c),
{
    c == '"' || c == '\'' || c == '`' || c == ',' || c == '，' || c == '。' || c == ';' || c == '；'
}

proof fn lemma_first_ws_bounds(s: Seq<char>)
    ensures
        0 <= first_ws(s) <= s.len(),
    decreases s.len(),
{
    if s.len() > 0 && !is_ws(s[0]) {
        lemma_first_ws_bounds(s.subrange(1, s.len() as int));
    }
}

fn trim_punct_start_vec(v: &Vec<char>) -> (r: Vec<char>)
    ensures
        r@ == trim_punct_start(v@),
{
    let n = v.len();
    let mut i: usize = 0;
    assert(v@.subrange(0, n as int) =~= v@);
    while i < n && is_punct(v[i])
        invariant
            n == v@.len(),
            i <= n,
            trim_punct_start(v@) == trim_punct_start(v@.subrange(i as int, n as int)),
        decreases n - i,
    {
        let ghost t = v@.subrange(i as int, n as int);
        assert(t.subrange(1, t.len() as int) =~= v@.subrange(i + 1, n as int));
        i = i + 1;
    }
    subvec(v, i, n)
}

fn trim_punct_end_vec(v: &Vec<char>) -> (r: Vec<char>)
    ensures
        r@ == trim_punct_end(v@),
{
    let n = v.len();
    let mut k: usize = n;
    assert(v@.subrange(0, n as int) =~= v@);
    while k > 0 && is_punct(v[k - 1])
        invariant
            n == v@.len(),
            k <= n,
            trim_punct_end(v@) == trim_punct_end(v@.subrange(0, k as int)),
        decreases k,
    {
        let ghost t = v@.subrange(0, k as int);
        assert(t.drop_last() =~= v@.subrange(0, k - 1));
        k = k - 1;
    }
    subvec(v, 0, k)
}

fn first_word_vec(v: &Vec<char>) -> (r: Option<Vec<char>>)
    ensures
        match r {
            Some(w) => first_word(v@) == Some(w@),
            None => first_word(v@) is None,
        },
{
    let t = trim_start_vec(v);
    if t.len() == 0 {
        return None;
    }
    let mut e: usize = 0;
    assert(t@.subrange(0, t@.len() as int) =~= t@);
    while e < t.len() && !char_is_ws(t[e])
        invariant
            e <= t@.len(),
            first_ws(t@) == e + first_ws(t@.subrange(e as int, t@.len() as int)),
        decreases t.len() - e,
    {
        proof {
            let u = t@.subrange(e as int, t@.len() as int);
            assert(u.subrange(1, u.len() as int) =~= t@.subrange(e + 1, t@.len() as int));
        }
        e = e + 1;
    }
    let w = subvec(&t, 0, e);
    assert(w@ =~= t@.take(e as int));
    Some(w)
}

pub fn clean_credential_value(raw_value: &str) -> (r: Option<String>)
    ensures
        match r {
            Some(s) => credential_spec(raw_value@) == Some(s@),
            None => credential_spec(raw_value@) is None,
        },
{
    let v = trim_start_vec(&chars_of(raw_value));
    let rest = if v.len() > 0 && (v[0] == ':' || v[0] == '：') {
        subvec(&v, 1, v.len())
    } else {
        v
    };
    let w = match first_word_vec(&rest) {
        Some(w) => w,
        None => {
            return None;
        },
    };
    let token = trim_punct_end_vec(&trim_punct_start_vec(&w));
    if token.len() == 0 {
        return None;
    }
    Some(string_from_chars(token.as_slice()))
}

/// The credential following the first occurrence of `label` in `line`.
pub open spec fn extract_spec(line: Seq<char>, label: Seq<char>) -> Option<Seq<char>> {
    match first_occurrence(line, label) {
        None => None,
        Some(i) => credential_spec(line.subrange(i + label.len(), line.len() as int)),
    }
}

pub fn extract_credential_value(line: &str, label: &str) -> (r: Option<String>)
    ensures
        match r {
            Some(s) => extract_spec(line@, label@) == Some(s@),
            None => extract_spec(line@, label@) is None,
        },
{
    let cs = chars_of(line);
    let lb = chars_of(label);
    match find_seq_vec(&cs, &lb) {
        None => None,
        Some(i) => {
            assert(i + lb@.len() <= cs@.len());
            assert(cs@.len() == cs.len());
            let tail = subvec(&cs, i + lb.len(), cs.len());
            clean_credential_value(string_from_chars(tail.as_slice()).as_str())
        },
    }
}

/// Default credentials printed by a fresh instance.
#[derive(Debug)]
pub struct DefaultCredentialsDetected {
    pub source: String,
    pub display_name: String,
    pub username: String,
    pub password: String,
}

/// Watches an instance's output for its default credentials.
#[derive(Debug)]
pub struct DefaultCredentialsDetector {
    pub username: Option<String>,
    pub password: Option<String>,
}

pub open spec fn username_label() -> Seq<char> {
    "Initial username"@
}

pub open spec fn password_label() -> Seq<char> {
    "Initial password"@
}

pub open spec fn expected_username() -> Seq<char> {
    "astrbot"@
}

/// The detector's state after a line: a username is only taken when it is
/// the expected default, and a password only once the username is known.
pub open spec fn detector_step(st: (Option<Seq<char>>, Option<Seq<char>>), line: Seq<char>) -> (
    Option<Seq<char>>,
    Option<Seq<char>>,
) {
    let u = if st.0 is None {
        match extract_spec(line, username_label()) {
            Some(x) => if x == expected_username() {
                Some(x)
            } else {
                None
            },
            None => None,
        }
    } else {
        st.0
    };
    let p = if u is Some {
        match extract_spec(line, password_label()) {
            Some(x) => Some(x),
            None => st.1,
        }
    } else {
        st.1
    };
    (u, p)
}

/// What pushing `line` does to a detector and what it reports.
pub open spec fn push_effect(
    before: DefaultCredentialsDetector,
    after: DefaultCredentialsDetector,
    source: Seq<char>,
    display_name: Seq<char>,
    line: Seq<char>,
    r: Option<DefaultCredentialsDetected>,
) -> bool {
    let st = detector_step(
        (crate::archive_path::opt_view(before.username), crate::archive_path::opt_view(before.password)),
        line,
    );
    if st.0 is Some && st.1 is Some {
        &&& r matches Some(d)
        &&& d.source@ == source && d.display_name@ == display_name
        &&& Some(d.username@) == st.0 && Some(d.password@) == st.1
        &&& after.username is None && after.password is None
    } else {
        &&& r is None
        &&& crate::archive_path::opt_view(after.username) == st.0
        &&& crate::archive_path::opt_view(after.password) == st.1
    }
}

impl DefaultCredentialsDetector {
    pub fn new() -> (r: Self)
        ensures
            r.username is None && r.password is None,
    {
        DefaultCredentialsDetector { username: None, password: None }
    }

    /// Process one output line; once both credentials are known they are
    /// reported (and forgotten).
    pub fn push_line(&mut self, source: &str, display_name: &str, line: &str) -> (r: Option<
        DefaultCredentialsDetected,
    >)
        ensures
            push_effect(*old(self), *final(self), source@, display_name@, line@, r),
    {
        if self.username.is_none() {
            self.username = match extract_credential_value(line, "Initial username") {
                Some(u) => if crate::text::eq_vec(&chars_of(u.as_str()), &chars_of("astrbot")) {
                    Some(u)
                } else {
                    None
                },
                None => None,
            };
        }
        if self.username.is_some() {
            if let Some(password) = extract_credential_value(line, "Initial password") {
                self.password = Some(password);
            }
        }
        if self.username.is_none() || self.password.is_none() {
            return None;
        }
        let username = match self.username.take() {
            Some(u) => u,
            None => {
                return None;
            },
        };
        let password = match self.password.take() {
            Some(p) => p,
            None => {
                return None;
            },
        };
        Some(
            DefaultCredentialsDetected {
                source: str_to_string(source),
                display_name: str_to_string(display_name),
                username,
                password,
            },
        )
    }
}

/// Watches the output of a starting instance: the default credentials, and
/// the first line that marks the startup as complete.
#[derive(Debug)]
pub struct StartupLogWatch {
    pub detector: DefaultCredentialsDetector,
    pub startup_sent: bool,
}

impl StartupLogWatch {
    pub fn new() -> (r: Self)
        ensures
            r.detector.username is None,
            r.detector.password is None,
            !r.startup_sent,
    {
        StartupLogWatch { detector: DefaultCredentialsDetector::new(), startup_sent: false }
    }

    /// Takes one output line; reports credentials once both are seen, and
    /// says whether this line is the first to mark startup completion.
    pub fn observe(&mut self, source: &str, display_name: &str, line: &str) -> (r: (
        Option<DefaultCredentialsDetected>,
        bool,
    ))
        ensures
            push_effect(old(self).detector, final(self).detector, source@, display_name@, line@, r.0),
            r.1 == (!old(self).startup_sent && is_startup_line(line@)),
            final(self).startup_sent == (old(self).startup_sent || is_startup_line(line@)),
    {
        let credentials = self.detector.push_line(source, display_name, line);
        let first = !self.startup_sent && is_startup_completion_log(line);
        if first {
            self.startup_sent = true;
        }
        (credentials, first)
    }
}

/// What ended the wait for a starting instance.
#[derive(Debug)]
pub enum StartupEvent {
    /// The shutdown signal changed; `set` is its new value.
    Shutdown { set: bool },
    /// The startup-completion channel answered; `false` when it closed.
    StartupSignal(bool),
    /// The process ended first.
    Exited(EarlyExit),
    /// The startup timeout elapsed.
    TimedOut,
}

pub open spec fn log_stream_closed_message() -> Seq<char> {
    "Failed to detect startup completion from log stream"@
}

pub open spec fn start_shutdown_message(instance_id: Seq<char>) -> Seq<char> {
    "Cannot start instance "@ + instance_id + ": application is shutting down"@
}

/// How the wait for a starting instance ends: whether the process is to be
/// killed (only when it may be signalled, on shutdown or timeout) and the
/// launch result.
pub fn startup_verdict(event: StartupEvent, instance_id: &str, may_signal: bool) -> (r: (
    bool,
    Result<(), AppError>,
))
    ensures
        match event {
            StartupEvent::Shutdown { set } => r.0 == (set && may_signal) && (r.1 matches Err(e)
                && e@ == (ErrorKind::Process, detail_payload(start_shutdown_message(instance_id@)))),
            StartupEvent::StartupSignal(true) => !r.0 && r.1 is Ok,
            StartupEvent::StartupSignal(false) => !r.0 && (r.1 matches Err(e) && e@ == (
                ErrorKind::Process,
                detail_payload(log_stream_closed_message()),
            )),
            StartupEvent::Exited(x) => !r.0 && (r.1 matches Err(e) && e@ == early_exit_error_spec(x)),
            StartupEvent::TimedOut => r.0 == may_signal && (r.1 matches Err(e) && e@ == (
                ErrorKind::StartupTimeout,
                Seq::<(Seq<char>, Seq<char>)>::empty(),
            )),
        },
{
    match event {
        StartupEvent::Shutdown { set } => (set && may_signal, Err(start_shutdown_error(instance_id))),
        StartupEvent::StartupSignal(received) => {
            if received {
                (false, Ok(()))
            } else {
                (false, Err(AppError::process("Failed to detect startup completion from log stream")))
            }
        },
        StartupEvent::Exited(x) => (false, Err(early_exit_error(&x))),
        StartupEvent::TimedOut => (may_signal, Err(AppError::startup_timeout())),
    }
}

/// The port a launch uses: the configured one (to be checked for being
/// free) when set, else one to be picked.
pub fn configured_launch_port(configured_port: u16) -> (r: Option<u16>)
    ensures
        r == (if configured_port > 0 {
            Some(configured_port)
        } else {
            None
        }),
{
    if configured_port > 0 {
        Some(configured_port)
    } else {
        None
    }
}

/// The error when an instance cannot start because the application is
/// shutting down.
pub fn start_shutdown_error(instance_id: &str) -> (e: AppError)
    ensures
        e@.0 == ErrorKind::Process,
        e@.1 == detail_payload(
            "Cannot start instance "@ + instance_id@ + ": application is shutting down"@,
        ),
{
    let mut m = str_to_string("Cannot start instance ");
    m.append(instance_id);
    m.append(": application is shutting down");
    AppError::process(m.as_str())
}

/// How an instance ended before its startup completed: its exit status text,
/// the failure to wait for it, or no word at all.
#[derive(Debug)]
pub enum EarlyExit {
    Status(String),
    WaitFailed(String),
    Unknown,
}

/// The error for an instance that ended before its startup completed.
pub open spec fn early_exit_error_spec(exit: EarlyExit) -> (ErrorKind, Seq<(Seq<char>, Seq<char>)>) {
    (
        ErrorKind::Process,
        detail_payload(
            match exit {
                EarlyExit::Status(s) => "Instance exited before startup completed (exit status: "@
                    + s@ + ")"@,
                EarlyExit::WaitFailed(w) => "Instance exited before startup completed ("@ + w@
                    + ")"@,
                EarlyExit::Unknown => "Instance exited before startup completed"@,
            },
        ),
    )
}

pub fn early_exit_error(exit: &EarlyExit) -> (e: AppError)
    ensures
        e@ == early_exit_error_spec(*exit),
{
    match exit {
        EarlyExit::Status(s) => {
            let mut m = str_to_string("Instance exited before startup completed (exit status: ");
            m.append(s.as_str());
            m.append(")");
            AppError::process(m.as_str())
        },
        EarlyExit::WaitFailed(w) => {
            let mut m = str_to_string("Instance exited before startup completed (");
            m.append(w.as_str());
            m.append(")");
            AppError::process(m.as_str())
        },
        EarlyExit::Unknown => AppError::process("Instance exited before startup completed"),
    }
}

/// After a graceful shutdown: success unless the process is still alive.
pub fn shutdown_outcome(pid: u32, still_alive: bool) -> (r: Result<(), AppError>)
    ensures
        r is Ok <==> !still_alive,
        r matches Err(e) ==> e@.0 == ErrorKind::Process && e@.1 == detail_payload(
            "Process "@ + decimal(pid as nat) + " is still alive after shutdown"@,
        ),
{
    if still_alive {
        let mut m = str_to_string("Process ");
        m.append(u64_to_decimal(pid as u64).as_str());
        m.append(" is still alive after shutdown");
        Err(AppError::process(m.as_str()))
    } else {
        Ok(())
    }
}

/// The environment of a launched instance (before the Node.js and proxy
/// variables are added).
pub fn launch_env_vars(
    host: &str,
    port: u16,
    venv_dir: &str,
    path: &str,
    venv_python: &str,
    uv_cache_dir: &str,
    default_index: &str,
) -> (r: Vec<(String, String)>)
    ensures
        crate::proxy::pairs_view(r@) == seq![
            ("ASTRBOT_LAUNCHER"@, "1"@),
            ("DASHBOARD_HOST"@, host@),
            ("DASHBOARD_PORT"@, decimal(port as nat)),
            ("PYTHONUNBUFFERED"@, "1"@),
            ("PYTHONIOENCODING"@, "utf-8"@),
            ("VIRTUAL_ENV"@, venv_dir@),
            ("PATH"@, path@),
            ("UV_NO_MANAGED_PYTHON"@, "1"@),
            ("UV_PYTHON_DOWNLOADS"@, "never"@),
            ("UV_PYTHON"@, venv_python@),
            ("UV_CACHE_DIR"@, uv_cache_dir@),
            ("UV_DEFAULT_INDEX"@, default_index@),
        ],
{
    let mut v: Vec<(String, String)> = Vec::new();
    v.push((str_to_string("ASTRBOT_LAUNCHER"), str_to_string("1")));
    v.push((str_to_string("DASHBOARD_HOST"), str_to_string(host)));
    v.push((str_to_string("DASHBOARD_PORT"), u64_to_decimal(port as u64)));
    v.push((str_to_string("PYTHONUNBUFFERED"), str_to_string("1")));
    v.push((str_to_string("PYTHONIOENCODING"), str_to_string("utf-8")));
    v.push((str_to_string("VIRTUAL_ENV"), str_to_string(venv_dir)));
    v.push((str_to_string("PATH"), str_to_string(path)));
    v.push((str_to_string("UV_NO_MANAGED_PYTHON"), str_to_string("1")));
    v.push((str_to_string("UV_PYTHON_DOWNLOADS"), str_to_string("never")));
    v.push((str_to_string("UV_PYTHON"), str_to_string(venv_python)));
    v.push((str_to_string("UV_CACHE_DIR"), str_to_string(uv_cache_dir)));
    v.push((str_to_string("UV_DEFAULT_INDEX"), str_to_string(default_index)));
    assert(crate::proxy::pairs_view(v@) =~= seq![
        ("ASTRBOT_LAUNCHER"@, "1"@),
        ("DASHBOARD_HOST"@, host@),
        ("DASHBOARD_PORT"@, decimal(port as nat)),
        ("PYTHONUNBUFFERED"@, "1"@),
        ("PYTHONIOENCODING"@, "utf-8"@),
        ("VIRTUAL_ENV"@, venv_dir@),
        ("PATH"@, path@),
        ("UV_NO_MANAGED_PYTHON"@, "1"@),
        ("UV_PYTHON_DOWNLOADS"@, "never"@),
        ("UV_PYTHON"@, venv_python@),
        ("UV_CACHE_DIR"@, uv_cache_dir@),
        ("UV_DEFAULT_INDEX"@, default_index@),
    ]);
    v
}

/// The error when a spawned instance's executable cannot be determined.
pub fn unresolved_executable_error(pid: u32) -> (e: AppError)
    ensures
        e@.0 == ErrorKind::Process,
        e@.1 == detail_payload("Failed to resolve executable path for PID "@ + decimal(pid as nat)),
{
    let mut m = str_to_string("Failed to resolve executable path for PID ");
    m.append(u64_to_decimal(pid as u64).as_str());
    AppError::process(m.as_str())
}

} // verus!
