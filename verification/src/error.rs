//! Application error values: a kind with a stable numeric code and a
//! key/value payload.

use vstd::prelude::*;
use vstd::string::*;

use crate::assoc::distinct_keys;
use crate::text::{decimal, str_to_string, u64_to_decimal};

verus! {

#[derive(Debug, Clone, Copy, PartialEq, Eq, Structural)]
pub enum ErrorKind {
    /// Instance not found
    InstanceNotFound,
    /// Instance is currently running
    InstanceRunning,
    /// Instance is not running
    InstanceNotRunning,
    /// Version not found or not installed
    VersionNotFound,
    /// Version is in use by an instance
    VersionInUse,
    /// Configuration error
    Config,
    /// File system error
    Io,
    /// Network error
    Network,
    /// Python runtime error
    Python,
    /// Python is not installed
    PythonNotInstalled,
    /// Process error
    Process,
    /// Target is locked by other processes
    ProcessLocking,
    /// Port is occupied
    PortOccupied,
    /// Host address is invalid or not available
    InvalidHost,
    /// Instance startup timed out
    StartupTimeout,
    /// Backup error
    Backup,
    /// GitHub API error
    GitHub,
    /// General error
    Other,
}

/// The numeric code reported to clients for each kind.
pub open spec fn kind_code(k: ErrorKind) -> u32 {
    match k {
        ErrorKind::InstanceNotFound => 1001,
        ErrorKind::InstanceRunning => 1002,
        ErrorKind::InstanceNotRunning => 1003,
        ErrorKind::VersionNotFound => 1004,
        ErrorKind::VersionInUse => 1005,
        ErrorKind::Config => 2001,
        ErrorKind::Io => 2002,
        ErrorKind::Network => 2003,
        ErrorKind::Python => 3001,
        ErrorKind::PythonNotInstalled => 3002,
        ErrorKind::Process => 3003,
        ErrorKind::PortOccupied => 3004,
        ErrorKind::StartupTimeout => 3005,
        ErrorKind::ProcessLocking => 3006,
        ErrorKind::InvalidHost => 3007,
        ErrorKind::Backup => 4001,
        ErrorKind::GitHub => 4002,
        ErrorKind::Other => 9999,
    }
}

/// The name of each kind as `{:?}` shows it.
pub open spec fn kind_name(k: ErrorKind) -> Seq<char> {
    match k {
        ErrorKind::InstanceNotFound => "InstanceNotFound"@,
        ErrorKind::InstanceRunning => "InstanceRunning"@,
        ErrorKind::InstanceNotRunning => "InstanceNotRunning"@,
        ErrorKind::VersionNotFound => "VersionNotFound"@,
        ErrorKind::VersionInUse => "VersionInUse"@,
        ErrorKind::Config => "Config"@,
        ErrorKind::Io => "Io"@,
        ErrorKind::Network => "Network"@,
        ErrorKind::Python => "Python"@,
        ErrorKind::PythonNotInstalled => "PythonNotInstalled"@,
        ErrorKind::Process => "Process"@,
        ErrorKind::PortOccupied => "PortOccupied"@,
        ErrorKind::StartupTimeout => "StartupTimeout"@,
        ErrorKind::ProcessLocking => "ProcessLocking"@,
        ErrorKind::InvalidHost => "InvalidHost"@,
        ErrorKind::Backup => "Backup"@,
        ErrorKind::GitHub => "GitHub"@,
        ErrorKind::Other => "Other"@,
    }
}

impl ErrorKind {
    /// The kind's name.
    pub fn name(&self) -> (r: &'static str)
        ensures
            r@ == kind_name(*self),
    {
        match self {
            ErrorKind::InstanceNotFound => "InstanceNotFound",
            ErrorKind::InstanceRunning => "InstanceRunning",
            ErrorKind::InstanceNotRunning => "InstanceNotRunning",
            ErrorKind::VersionNotFound => "VersionNotFound",
            ErrorKind::VersionInUse => "VersionInUse",
            ErrorKind::Config => "Config",
            ErrorKind::Io => "Io",
            ErrorKind::Network => "Network",
            ErrorKind::Python => "Python",
            ErrorKind::PythonNotInstalled => "PythonNotInstalled",
            ErrorKind::Process => "Process",
            ErrorKind::PortOccupied => "PortOccupied",
            ErrorKind::StartupTimeout => "StartupTimeout",
            ErrorKind::ProcessLocking => "ProcessLocking",
            ErrorKind::InvalidHost => "InvalidHost",
            ErrorKind::Backup => "Backup",
            ErrorKind::GitHub => "GitHub",
            ErrorKind::Other => "Other",
        }
    }

    pub fn code(&self) -> (c: u32)
        ensures
            c == kind_code(*self),
    {
        match self {
            ErrorKind::InstanceNotFound => 1001,
            ErrorKind::InstanceRunning => 1002,
            ErrorKind::InstanceNotRunning => 1003,
            ErrorKind::VersionNotFound => 1004,
            ErrorKind::VersionInUse => 1005,
            ErrorKind::Config => 2001,
            ErrorKind::Io => 2002,
            ErrorKind::Network => 2003,
            ErrorKind::Python => 3001,
            ErrorKind::PythonNotInstalled => 3002,
            ErrorKind::Process => 3003,
            ErrorKind::PortOccupied => 3004,
            ErrorKind::StartupTimeout => 3005,
            ErrorKind::ProcessLocking => 3006,
            ErrorKind::InvalidHost => 3007,
            ErrorKind::Backup => 4001,
            ErrorKind::GitHub => 4002,
            ErrorKind::Other => 9999,
        }
    }
}

/// The payload entries as `key=value`, separated by `, `.
pub open spec fn pairs_text(p: Seq<(Seq<char>, Seq<char>)>) -> Seq<char>
    decreases p.len(),
{
    if p.len() == 0 {
        Seq::empty()
    } else if p.len() == 1 {
        p[0].0 + "="@ + p[0].1
    } else {
        pairs_text(p.drop_last()) + ", "@ + p.last().0 + "="@ + p.last().1
    }
}

/// The text of an error: the kind's name, then `: ` and the payload when
/// there is one.
pub open spec fn message_spec(e: (ErrorKind, Seq<(Seq<char>, Seq<char>)>)) -> Seq<char> {
    if e.1.len() == 0 {
        kind_name(e.0)
    } else {
        kind_name(e.0) + ": "@ + pairs_text(e.1)
    }
}

/// A payload entry: key and value.
pub type Entry = (String, String);

/// Abstract payload: the key/value pairs in insertion order.
pub open spec fn entries_view(p: Seq<Entry>) -> Seq<(Seq<char>, Seq<char>)> {
    p.map_values(|e: Entry| (e.0@, e.1@))
}

/// Application error with a kind and a key/value payload, in which no key
/// occurs twice.
#[derive(Debug)]
pub struct AppError {
    payload: Vec<Entry>,
    kind: ErrorKind,
}

impl View for AppError {
    type V = (ErrorKind, Seq<(Seq<char>, Seq<char>)>);

    closed spec fn view(&self) -> Self::V {
        (self.kind, entries_view(self.payload@))
    }
}

/// The one-entry payload `{"detail": detail}`, or no entry when `detail` is empty.
pub open spec fn detail_payload(detail: Seq<char>) -> Seq<(Seq<char>, Seq<char>)> {
    if detail.len() == 0 {
        seq![]
    } else {
        seq![("detail"@, detail)]
    }
}

fn entry(k: &str, v: &str) -> (e: Entry)
    ensures
        e.0@ == k@,
        e.1@ == v@,
{
    (str_to_string(k), str_to_string(v))
}

impl AppError {
    /// No key occurs twice in the payload, as in a map.
    #[verifier::type_invariant]
    spec fn keys_distinct(self) -> bool {
        distinct_keys(entries_view(self.payload@))
    }

    pub fn new(kind: ErrorKind, payload: Vec<Entry>) -> (r: Self)
        requires
            distinct_keys(entries_view(payload@)),
        ensures
            r@.0 == kind,
            r@.1 == entries_view(payload@),
    {
        AppError { payload, kind }
    }

    /// Create an error with a single "detail" key from a non-empty string,
    /// or an empty payload if the string is empty.
    fn with_detail(kind: ErrorKind, detail: &str) -> (r: Self)
        ensures
            r@.0 == kind,
            r@.1 == detail_payload(detail@),
    {
        let mut payload: Vec<Entry> = Vec::new();
        if !detail.is_empty() {
            payload.push(entry("detail", detail));
        }
        let r = Self::new(kind, payload);
        assert(r@.1 =~= detail_payload(detail@));
        r
    }

    pub fn instance_not_found(id: &str) -> (r: Self)
        ensures
            r@.0 == ErrorKind::InstanceNotFound,
            r@.1 == seq![("id"@, id@)],
    {
        let mut p: Vec<Entry> = Vec::new();
        p.push(entry("id", id));
        let r = Self::new(ErrorKind::InstanceNotFound, p);
        assert(r@.1 =~= seq![("id"@, id@)]);
        r
    }

    pub fn instance_running() -> (r: Self)
        ensures
            r@.0 == ErrorKind::InstanceRunning,
            r@.1 == Seq::<(Seq<char>, Seq<char>)>::empty(),
    {
        let r = Self::new(ErrorKind::InstanceRunning, Vec::new());
        assert(r@.1 =~= Seq::<(Seq<char>, Seq<char>)>::empty());
        r
    }

    pub fn instance_not_running() -> (r: Self)
        ensures
            r@.0 == ErrorKind::InstanceNotRunning,
            r@.1 == Seq::<(Seq<char>, Seq<char>)>::empty(),
    {
        let r = Self::new(ErrorKind::InstanceNotRunning, Vec::new());
        assert(r@.1 =~= Seq::<(Seq<char>, Seq<char>)>::empty());
        r
    }

    pub fn version_not_found(version: &str) -> (r: Self)
        ensures
            r@.0 == ErrorKind::VersionNotFound,
            r@.1 == seq![("version"@, version@)],
    {
        let mut p: Vec<Entry> = Vec::new();
        p.push(entry("version", version));
        let r = Self::new(ErrorKind::VersionNotFound, p);
        assert(r@.1 =~= seq![("version"@, version@)]);
        r
    }

    pub fn version_in_use(version: &str, instance_name: &str) -> (r: Self)
        ensures
            r@.0 == ErrorKind::VersionInUse,
            r@.1 == seq![("version"@, version@), ("instance"@, instance_name@)],
    {
        let mut p: Vec<Entry> = Vec::new();
        p.push(entry("version", version));
        proof {
            reveal_strlit("version");
            reveal_strlit("instance");
        }
        p.push(entry("instance", instance_name));
        assert(entries_view(p@) =~= seq![("version"@, version@), ("instance"@, instance_name@)]);
        assert("version"@[0] != "instance"@[0]);
        let r = Self::new(ErrorKind::VersionInUse, p);
        r
    }

    pub fn config(message: &str) -> (r: Self)
        ensures
            r@.0 == ErrorKind::Config,
            r@.1 == detail_payload(message@),
    {
        Self::with_detail(ErrorKind::Config, message)
    }

    pub fn io(message: &str) -> (r: Self)
        ensures
            r@.0 == ErrorKind::Io,
            r@.1 == detail_payload(message@),
    {
        Self::with_detail(ErrorKind::Io, message)
    }

    pub fn network(message: &str) -> (r: Self)
        ensures
            r@.0 == ErrorKind::Network,
            r@.1 == detail_payload(message@),
    {
        Self::with_detail(ErrorKind::Network, message)
    }

    pub fn network_with_url(url: &str, detail: &str) -> (r: Self)
        ensures
            r@.0 == ErrorKind::Network,
            r@.1 == seq![("url"@, url@), ("detail"@, detail@)],
    {
        let mut p: Vec<Entry> = Vec::new();
        p.push(entry("url", url));
        proof {
            reveal_strlit("url");
            reveal_strlit("detail");
        }
        p.push(entry("detail", detail));
        assert(entries_view(p@) =~= seq![("url"@, url@), ("detail"@, detail@)]);
        assert("url"@[0] != "detail"@[0]);
        let r = Self::new(ErrorKind::Network, p);
        r
    }

    pub fn python(message: &str) -> (r: Self)
        ensures
            r@.0 == ErrorKind::Python,
            r@.1 == detail_payload(message@),
    {
        Self::with_detail(ErrorKind::Python, message)
    }

    pub fn python_not_installed() -> (r: Self)
        ensures
            r@.0 == ErrorKind::PythonNotInstalled,
            r@.1 == Seq::<(Seq<char>, Seq<char>)>::empty(),
    {
        let r = Self::new(ErrorKind::PythonNotInstalled, Vec::new());
        assert(r@.1 =~= Seq::<(Seq<char>, Seq<char>)>::empty());
        r
    }

    pub fn process(message: &str) -> (r: Self)
        ensures
            r@.0 == ErrorKind::Process,
            r@.1 == detail_payload(message@),
    {
        Self::with_detail(ErrorKind::Process, message)
    }

    pub fn process_locking(message: &str) -> (r: Self)
        ensures
            r@.0 == ErrorKind::ProcessLocking,
            r@.1 == detail_payload(message@),
    {
        Self::with_detail(ErrorKind::ProcessLocking, message)
    }

    pub fn port_occupied(port: u16) -> (r: Self)
        ensures
            r@.0 == ErrorKind::PortOccupied,
            r@.1 == seq![("port"@, decimal(port as nat))],
    {
        let digits = u64_to_decimal(port as u64);
        let mut p: Vec<Entry> = Vec::new();
        p.push((str_to_string("port"), digits));
        let r = Self::new(ErrorKind::PortOccupied, p);
        assert(r@.1 =~= seq![("port"@, decimal(port as nat))]);
        r
    }

    pub fn invalid_host(host: &str) -> (r: Self)
        ensures
            r@.0 == ErrorKind::InvalidHost,
            r@.1 == detail_payload(host@),
    {
        Self::with_detail(ErrorKind::InvalidHost, host)
    }

    pub fn startup_timeout() -> (r: Self)
        ensures
            r@.0 == ErrorKind::StartupTimeout,
            r@.1 == Seq::<(Seq<char>, Seq<char>)>::empty(),
    {
        let r = Self::new(ErrorKind::StartupTimeout, Vec::new());
        assert(r@.1 =~= Seq::<(Seq<char>, Seq<char>)>::empty());
        r
    }

    pub fn backup(message: &str) -> (r: Self)
        ensures
            r@.0 == ErrorKind::Backup,
            r@.1 == detail_payload(message@),
    {
        Self::with_detail(ErrorKind::Backup, message)
    }

    pub fn backup_arch_mismatch(backup_arch: &str, current_arch: &str) -> (r: Self)
        ensures
            r@.0 == ErrorKind::Backup,
            r@.1 == seq![("backup_arch"@, backup_arch@), ("current_arch"@, current_arch@)],
    {
        let mut p: Vec<Entry> = Vec::new();
        p.push(entry("backup_arch", backup_arch));
        proof {
            reveal_strlit("backup_arch");
            reveal_strlit("current_arch");
        }
        p.push(entry("current_arch", current_arch));
        assert(entries_view(p@) =~= seq![("backup_arch"@, backup_arch@), ("current_arch"@, current_arch@)]);
        assert("backup_arch"@[0] != "current_arch"@[0]);
        let r = Self::new(ErrorKind::Backup, p);
        r
    }

    pub fn github(message: &str) -> (r: Self)
        ensures
            r@.0 == ErrorKind::GitHub,
            r@.1 == detail_payload(message@),
    {
        Self::with_detail(ErrorKind::GitHub, message)
    }

    pub fn other(message: &str) -> (r: Self)
        ensures
            r@.0 == ErrorKind::Other,
            r@.1 == detail_payload(message@),
    {
        Self::with_detail(ErrorKind::Other, message)
    }

    /// The error as text: the kind, then the `key=value` entries in order.
    pub fn message(&self) -> (r: String)
        ensures
            r@ == message_spec(self@),
    {
        let mut r = str_to_string(self.kind.name());
        if self.payload.len() == 0 {
            return r;
        }
        r.append(": ");
        let ghost pv = entries_view(self.payload@);
        let ghost head = r@;
        let mut i: usize = 0;
        while i < self.payload.len()
            invariant
                i <= self.payload@.len(),
                self.payload@.len() > 0,
                pv == entries_view(self.payload@),
                head == kind_name(self.kind) + ": "@,
                r@ == head + pairs_text(pv.take(i as int)),
            decreases self.payload.len() - i,
        {
            proof {
                assert(pv.take(i + 1).drop_last() =~= pv.take(i as int));
                assert(pv[i as int] == (self.payload@[i as int].0@, self.payload@[i as int].1@));
            }
            if i > 0 {
                r.append(", ");
            }
            r.append(self.payload[i].0.as_str());
            r.append("=");
            r.append(self.payload[i].1.as_str());
            proof {
                if i == 0 {
                    assert(pv.take(0) =~= Seq::<(Seq<char>, Seq<char>)>::empty());
                    reveal_strlit("");
                }
                assert(r@ =~= head + pairs_text(pv.take(i + 1)));
            }
            i = i + 1;
        }
        assert(pv.take(i as int) =~= pv);
        r
    }

    pub fn kind(&self) -> (k: ErrorKind)
        ensures
            k == self@.0,
    {
        self.kind
    }

    /// The payload entries, in insertion order; no key occurs twice.
    pub fn payload(&self) -> (p: &Vec<Entry>)
        ensures
            entries_view(p@) == self@.1,
            distinct_keys(self@.1),
    {
        proof {
            use_type_invariant(self);
        }
        &self.payload
    }

    /// The numeric code of this error's kind.
    pub fn code(&self) -> (c: u32)
        ensures
            c == kind_code(self@.0),
    {
        self.kind.code()
    }
}

/// Convenient Result type alias.
pub type Result<T> = std::result::Result<T, AppError>;

} // verus!
