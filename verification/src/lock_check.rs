//! What a check for files held open by other processes looks at, and what
//! it answers. The query itself (the system's restart manager) and the
//! directory walk are done by the caller.

use vstd::prelude::*;
use vstd::string::*;

use crate::archive_path::strs_view;
use crate::assoc::distinct_keys;
use crate::component_ops::{comma_joined, join_comma};
use crate::error::{entries_view, AppError, Entry, ErrorKind};
use crate::text::{chars_of, concat_str, decimal, eq_ignore_case, eq_ignore_case_vec, eq_vec, str_to_string, u64_to_decimal};

verus! {

/// Directory names whose contents are never checked.
pub open spec fn skipped_dir_spec(name: Seq<char>) -> bool {
    name == ".git"@ || name == "node_modules"@ || name == "dist"@ || name == "__pycache__"@
}

fn str_is(a: &str, b: &str) -> (r: bool)
    ensures
        r == (a@ == b@),
{
    eq_vec(&chars_of(a), &chars_of(b))
}

/// Whether the walk skips a directory of this name.
pub fn skips_dir(name: &str) -> (r: bool)
    ensures
        r == skipped_dir_spec(name@),
{
    proof {
        reveal_strlit(".git");
        reveal_strlit("node_modules");
        reveal_strlit("dist");
        reveal_strlit("__pycache__");
    }
    str_is(name, ".git") || str_is(name, "node_modules") || str_is(name, "dist") || str_is(
        name,
        "__pycache__",
    )
}

/// The extensions checked when the whitelist is switched on.
pub open spec fn whitelist_spec() -> Seq<Seq<char>> {
    seq![
        "py"@, "js"@, "ts"@, "db"@, "db-shm"@, "db-wal"@, "json"@, "md"@, "html"@, "sh"@, "ps1"@,
        "bat"@, "cmd"@, "fish"@,
    ]
}

fn whitelist() -> (r: Vec<&'static str>)
    ensures
        r@.map_values(|s: &str| s@) == whitelist_spec(),
{
    let r = vec![
        "py", "js", "ts", "db", "db-shm", "db-wal", "json", "md", "html", "sh", "ps1", "bat",
        "cmd", "fish",
    ];
    proof {
        reveal_strlit("py");
        reveal_strlit("js");
        reveal_strlit("ts");
        reveal_strlit("db");
        reveal_strlit("db-shm");
        reveal_strlit("db-wal");
        reveal_strlit("json");
        reveal_strlit("md");
        reveal_strlit("html");
        reveal_strlit("sh");
        reveal_strlit("ps1");
        reveal_strlit("bat");
        reveal_strlit("cmd");
        reveal_strlit("fish");
        assert(r@.map_values(|s: &str| s@) =~= whitelist_spec());
    }
    r
}

/// Whether a file with this extension (`None`: no extension, or one that is
/// not valid text) is checked: with the whitelist, only the listed
/// extensions in any ASCII case; without it, every file but `.pyc`.
pub open spec fn file_checked_spec(extension: Option<Seq<char>>, use_whitelist: bool) -> bool {
    if use_whitelist {
        match extension {
            Some(e) => exists|i: int| 0 <= i < whitelist_spec().len() && eq_ignore_case(#[trigger] whitelist_spec()[i], e),
            None => false,
        }
    } else {
        match extension {
            Some(e) => e != "pyc"@,
            None => true,
        }
    }
}

pub fn is_file_checked(extension: Option<&str>, use_whitelist: bool) -> (r: bool)
    ensures
        r == file_checked_spec(
            match extension {
                Some(e) => Some(e@),
                None => None,
            },
            use_whitelist,
        ),
{
    proof {
        reveal_strlit("pyc");
    }
    match extension {
        None => !use_whitelist,
        Some(e) => {
            if use_whitelist {
                let list = whitelist();
                let ec = chars_of(e);
                let mut i: usize = 0;
                while i < list.len()
                    invariant
                        i <= list@.len(),
                        list@.map_values(|s: &str| s@) == whitelist_spec(),
                        ec@ == e@,
                        extension == Some(e),
                        use_whitelist,
                        forall|j: int| 0 <= j < i ==> !eq_ignore_case(#[trigger] whitelist_spec()[j], e@),
                    decreases list.len() - i,
                {
                    assert(whitelist_spec()[i as int] == list@[i as int]@);
                    if eq_ignore_case_vec(&chars_of(list[i]), &ec) {
                        assert(eq_ignore_case(whitelist_spec()[i as int], e@));
                        return true;
                    }
                    i = i + 1;
                }
                false
            } else {
                !str_is(e, "pyc")
            }
        },
    }
}

/// A process found holding one of the files.
pub struct LockingProcess {
    pub pid: u32,
    pub executable_path: Option<String>,
    pub app_name: String,
    pub service_short_name: String,
}

/// The labels of a process: its executable (or else its application name,
/// when it has one), then its service name, when it has one.
pub open spec fn process_labels(p: LockingProcess) -> Seq<Seq<char>> {
    let first: Seq<Seq<char>> = match p.executable_path {
        Some(path) => seq![path@],
        None => if p.app_name@.len() > 0 {
            seq![p.app_name@]
        } else {
            seq![]
        },
    };
    if p.service_short_name@.len() > 0 {
        first.push("服务："@ + p.service_short_name@)
    } else {
        first
    }
}

/// `PID n`, followed by the labels in brackets when there are any.
pub open spec fn locking_process_text(p: LockingProcess) -> Seq<char> {
    let labels = process_labels(p);
    if labels.len() == 0 {
        "PID "@ + decimal(p.pid as nat)
    } else {
        "PID "@ + decimal(p.pid as nat) + " ("@ + comma_joined(labels) + ")"@
    }
}

pub fn format_locking_process(p: &LockingProcess) -> (r: String)
    ensures
        r@ == locking_process_text(*p),
{
    let mut labels: Vec<String> = Vec::new();
    match &p.executable_path {
        Some(path) => labels.push(path.clone()),
        None => {
            if !p.app_name.as_str().is_empty() {
                labels.push(p.app_name.clone());
            }
        },
    }
    if !p.service_short_name.as_str().is_empty() {
        labels.push(concat_str("服务：", p.service_short_name.as_str()));
    }
    assert(strs_view(labels@) =~= process_labels(*p));
    let mut out = concat_str("PID ", u64_to_decimal(p.pid as u64).as_str());
    if labels.len() > 0 {
        out.append(" (");
        out.append(join_comma(&labels).as_str());
        out.append(")");
    }
    out
}

/// How `serde_json` writes one character inside a JSON string: `"` and `\`
/// behind a backslash, the control characters with a short form as `\b`,
/// `\t`, `\n`, `\f`, `\r`, the other control characters below U+0020 as
/// `\u00` and two lower-case hex digits, everything else as it is.
pub open spec fn json_char_escape(c: char) -> Seq<char> {
    if c == '"' {
        seq!['\\', '"']
    } else if c == '\\' {
        seq!['\\', '\\']
    } else if c == '\u{8}' {
        seq!['\\', 'b']
    } else if c == '\t' {
        seq!['\\', 't']
    } else if c == '\n' {
        seq!['\\', 'n']
    } else if c == '\u{c}' {
        seq!['\\', 'f']
    } else if c == '\r' {
        seq!['\\', 'r']
    } else if (c as int) < 0x20 {
        seq!['\\', 'u', '0', '0', "0123456789abcdef"@[(c as int) / 16], "0123456789abcdef"@[(c as int) % 16]]
    } else {
        seq![c]
    }
}

/// The characters of a string, each escaped as `serde_json` writes them.
pub open spec fn json_escaped(s: Seq<char>) -> Seq<char>
    decreases s.len(),
{
    if s.len() == 0 {
        Seq::empty()
    } else {
        json_escaped(s.drop_last()) + json_char_escape(s.last())
    }
}

/// A string as `serde_json` writes it: quoted, each character escaped.
pub open spec fn json_string(s: Seq<char>) -> Seq<char> {
    seq!['"'] + json_escaped(s) + seq!['"']
}

/// The elements of a JSON array of strings, separated by commas.
pub open spec fn json_string_items(items: Seq<Seq<char>>) -> Seq<char>
    decreases items.len(),
{
    if items.len() == 0 {
        Seq::empty()
    } else if items.len() == 1 {
        json_string(items[0])
    } else {
        json_string_items(items.drop_last()) + seq![','] + json_string(items.last())
    }
}

/// What `serde_json` writes for a list of strings: the compact JSON array.
pub open spec fn json_string_list(items: Seq<Seq<char>>) -> Seq<char> {
    seq!['['] + json_string_items(items) + seq![']']
}

/// `serde_json::to_string` on a list of strings: its compact formatter writes
/// `[`, the strings quoted and escaped by its escape table, separated by `,`,
/// and `]`. Serialising strings cannot fail, so the empty-array fallback is
/// never taken.
#[verifier::external_body]
fn json_list_text(items: &Vec<String>) -> (r: String)
    ensures
        r@ == json_string_list(strs_view(items@)),
{
    serde_json::to_string(items).unwrap_or_else(|_| String::from("[]"))
}

fn push_entry(p: &mut Vec<Entry>, k: &str, v: &str)
    ensures
        entries_view(final(p)@) == entries_view(old(p)@).push((k@, v@)),
{
    let ghost before = p@;
    p.push((str_to_string(k), str_to_string(v)));
    assert(entries_view(p@) =~= entries_view(before).push((k@, v@)));
}

/// Why the query could not be made.
pub enum LockQueryFailure {
    /// The system has no restart-manager session left.
    MaxSessionsReached,
    /// Any other failure, with its text.
    Other,
}

/// The error when the query failed: the caller may go on.
pub open spec fn query_failed_payload(max_sessions: bool, query_error: Seq<char>) -> Seq<(Seq<char>, Seq<char>)> {
    let base = seq![
        ("detail"@, if max_sessions {
            "系统 Restart Manager 会话数已达上限，无法检测占用状态"@
        } else {
            "目标路径占用状态检测失败"@
        }),
        ("reason"@, "check_failed"@),
        ("can_continue"@, "true"@),
        ("query_error"@, query_error),
    ];
    if max_sessions {
        base.push(("check_failure_kind"@, "max_sessions_reached"@))
    } else {
        base
    }
}

/// The error when processes hold the files: the caller must not go on.
pub open spec fn locked_payload(items: Seq<Seq<char>>) -> Seq<(Seq<char>, Seq<char>)> {
    seq![
        ("detail"@, "目标路径被占用，请关闭相关进程后重试"@),
        ("reason"@, "locked"@),
        ("can_continue"@, "false"@),
        ("locking_processes"@, json_string_list(items)),
    ]
}

/// The answer to a lock check, from the query's outcome: `Err((failure,
/// text))` when the query failed, else the processes found.
pub fn lock_check_outcome(query: Result<Vec<LockingProcess>, (LockQueryFailure, String)>) -> (r: Result<(), AppError>)
    ensures
        match query {
            Err((f, text)) => r matches Err(e) && e@.0 == ErrorKind::ProcessLocking && e@.1 == query_failed_payload(
                f is MaxSessionsReached,
                text@,
            ),
            Ok(ps) => if ps@.len() == 0 {
                r is Ok
            } else {
                r matches Err(e) && e@.0 == ErrorKind::ProcessLocking && e@.1 == locked_payload(
                    ps@.map_values(|p: LockingProcess| locking_process_text(p)),
                )
            },
        },
{
    match query {
        Err((f, text)) => {
            let max = matches!(f, LockQueryFailure::MaxSessionsReached);
            let mut p: Vec<Entry> = Vec::new();
            if max {
                push_entry(&mut p, "detail", "系统 Restart Manager 会话数已达上限，无法检测占用状态");
            } else {
                push_entry(&mut p, "detail", "目标路径占用状态检测失败");
            }
            push_entry(&mut p, "reason", "check_failed");
            push_entry(&mut p, "can_continue", "true");
            push_entry(&mut p, "query_error", text.as_str());
            if max {
                push_entry(&mut p, "check_failure_kind", "max_sessions_reached");
            }
            assert(entries_view(p@) =~= query_failed_payload(max, text@));
            proof {
                reveal_strlit("detail");
                reveal_strlit("reason");
                reveal_strlit("can_continue");
                reveal_strlit("query_error");
                reveal_strlit("check_failure_kind");
                let q = query_failed_payload(max, text@);
                assert("detail"@[0] == 'd' && "reason"@[0] == 'r' && "can_continue"@[0] == 'c');
                assert("query_error"@[0] == 'q' && "check_failure_kind"@.len() == 18);
                assert forall|i: int, j: int|
                    0 <= i < q.len() && 0 <= j < q.len() && i != j implies q[i].0 != q[j].0 by {
                    assert(q[0].0 == "detail"@ && q[1].0 == "reason"@ && q[2].0 == "can_continue"@);
                    assert(q[3].0 == "query_error"@);
                    if q.len() == 5 {
                        assert(q[4].0 == "check_failure_kind"@);
                    }
                }
            }
            let e = AppError::new(ErrorKind::ProcessLocking, p);
            Err(e)
        },
        Ok(ps) => {
            if ps.len() == 0 {
                return Ok(());
            }
            let mut items: Vec<String> = Vec::new();
            let mut i: usize = 0;
            while i < ps.len()
                invariant
                    i <= ps@.len(),
                    strs_view(items@) == ps@.take(i as int).map_values(|p: LockingProcess| locking_process_text(p)),
                decreases ps.len() - i,
            {
                let ghost before = strs_view(items@);
                items.push(format_locking_process(&ps[i]));
                assert(strs_view(items@) =~= before.push(locking_process_text(ps@[i as int])));
                assert(ps@.take(i as int + 1).map_values(|p: LockingProcess| locking_process_text(p))
                    =~= ps@.take(i as int).map_values(|p: LockingProcess| locking_process_text(p)).push(
                    locking_process_text(ps@[i as int]),
                ));
                i = i + 1;
            }
            assert(ps@.take(i as int) =~= ps@);
            let json = json_list_text(&items);
            let mut p: Vec<Entry> = Vec::new();
            push_entry(&mut p, "detail", "目标路径被占用，请关闭相关进程后重试");
            push_entry(&mut p, "reason", "locked");
            push_entry(&mut p, "can_continue", "false");
            push_entry(&mut p, "locking_processes", json.as_str());
            let ghost texts = ps@.map_values(|p: LockingProcess| locking_process_text(p));
            assert(entries_view(p@) =~= locked_payload(texts));
            proof {
                reveal_strlit("detail");
                reveal_strlit("reason");
                reveal_strlit("can_continue");
                reveal_strlit("locking_processes");
                let q = locked_payload(texts);
                assert("detail"@[0] == 'd' && "reason"@[0] == 'r' && "can_continue"@[0] == 'c');
                assert("locking_processes"@[0] == 'l');
                assert forall|i: int, j: int|
                    0 <= i < q.len() && 0 <= j < q.len() && i != j implies q[i].0 != q[j].0 by {
                    assert(q[0].0 == "detail"@ && q[1].0 == "reason"@ && q[2].0 == "can_continue"@);
                    assert(q[3].0 == "locking_processes"@);
                }
            }
            let e = AppError::new(ErrorKind::ProcessLocking, p);
            Err(e)
        },
    }
}

} // verus!
