use astrbot_launcher::component::{cmd_shim_script, ps1_shim_script, ps_quote};
use astrbot_launcher::error::ErrorKind;
use astrbot_launcher::file_ops::{new_upload_session, sort_file_entries, FileEntry, UploadSessions};
use astrbot_launcher::instances::{dashboard_enabled, strip_bom, CmdConfigRead};
use astrbot_launcher::lock_check::{
    format_locking_process, is_file_checked, lock_check_outcome, skips_dir, LockQueryFailure,
    LockingProcess,
};
use astrbot_launcher::mirror_listing::mirror_python_asset_names;

fn entry(name: &str, is_dir: bool) -> FileEntry {
    FileEntry { name: name.to_string(), is_dir, size: if is_dir { 0 } else { 10 }, modified: None }
}

fn payload_value(e: &astrbot_launcher::error::AppError, key: &str) -> Option<String> {
    e.payload().iter().find(|(k, _)| k == key).map(|(_, v)| v.clone())
}

#[test]
fn listing_puts_directories_first_then_names() {
    let v = vec![
        entry("b.txt", false),
        entry("zeta", true),
        entry("a.txt", false),
        entry("alpha", true),
        entry("B.txt", false),
    ];
    let r = sort_file_entries(v);
    let names: Vec<&str> = r.iter().map(|e| e.name.as_str()).collect();
    assert_eq!(names, vec!["alpha", "zeta", "B.txt", "a.txt", "b.txt"]);
}

#[test]
fn listing_of_nothing_is_empty() {
    assert!(sort_file_entries(Vec::new()).is_empty());
}

#[test]
fn upload_session_paths() {
    let s = new_upload_session("/data/core/plugins", "x.zip", "abc", "/tmp");
    assert_eq!(s.dest, "/data/core/plugins/x.zip");
    assert_eq!(s.tmp, "/tmp/astrbot_upload_abc");
}

#[test]
fn upload_finish_hands_back_the_registered_session_once() {
    let mut t = UploadSessions::new();
    t.register("u1", new_upload_session("/r", "a", "u1", "/tmp"));
    t.register("u2", new_upload_session("/r", "b", "u2", "/tmp"));
    assert_eq!(t.lookup("u1").unwrap().dest, "/r/a");
    assert!(t.lookup("nope").is_none());
    let s = t.finish("u2").unwrap();
    assert_eq!(s.dest, "/r/b");
    assert!(t.finish("u2").is_none());
    assert!(t.lookup("u1").is_some());
}

#[test]
fn upload_register_replaces_same_id() {
    let mut t = UploadSessions::new();
    t.register("u", new_upload_session("/r", "a", "u", "/tmp"));
    t.register("u", new_upload_session("/r", "c", "u", "/tmp"));
    assert_eq!(t.finish("u").unwrap().dest, "/r/c");
    assert!(t.finish("u").is_none());
}

#[test]
fn lock_check_skips_tool_directories() {
    for d in [".git", "node_modules", "dist", "__pycache__"] {
        assert!(skips_dir(d));
    }
    assert!(!skips_dir("data"));
    assert!(!skips_dir("Dist"));
}

#[test]
fn lock_check_file_filter() {
    assert!(is_file_checked(Some("py"), true));
    assert!(is_file_checked(Some("PY"), true));
    assert!(is_file_checked(Some("db-wal"), true));
    assert!(!is_file_checked(Some("txt"), true));
    assert!(!is_file_checked(None, true));
    assert!(is_file_checked(Some("txt"), false));
    assert!(is_file_checked(None, false));
    assert!(!is_file_checked(Some("pyc"), false));
    assert!(is_file_checked(Some("PYC"), false));
}

#[test]
fn locking_process_text() {
    let p = LockingProcess {
        pid: 42,
        executable_path: Some("C:\\a\\python.exe".to_string()),
        app_name: "Python".to_string(),
        service_short_name: String::new(),
    };
    assert_eq!(format_locking_process(&p), "PID 42 (C:\\a\\python.exe)");
    let q = LockingProcess {
        pid: 7,
        executable_path: None,
        app_name: "Explorer".to_string(),
        service_short_name: "svc".to_string(),
    };
    assert_eq!(format_locking_process(&q), "PID 7 (Explorer, 服务：svc)");
    let bare = LockingProcess {
        pid: 9,
        executable_path: None,
        app_name: String::new(),
        service_short_name: String::new(),
    };
    assert_eq!(format_locking_process(&bare), "PID 9");
}

#[test]
fn lock_check_answers() {
    assert!(lock_check_outcome(Ok(Vec::new())).is_ok());
    let locked = lock_check_outcome(Ok(vec![LockingProcess {
        pid: 3,
        executable_path: None,
        app_name: "a\"b".to_string(),
        service_short_name: String::new(),
    }]))
    .unwrap_err();
    assert_eq!(locked.kind(), ErrorKind::ProcessLocking);
    assert_eq!(payload_value(&locked, "reason").unwrap(), "locked");
    assert_eq!(payload_value(&locked, "can_continue").unwrap(), "false");
    assert_eq!(
        payload_value(&locked, "locking_processes").unwrap(),
        "[\"PID 3 (a\\\"b)\"]"
    );
    let failed = lock_check_outcome(Err((LockQueryFailure::MaxSessionsReached, "busy".to_string())))
        .unwrap_err();
    assert_eq!(payload_value(&failed, "reason").unwrap(), "check_failed");
    assert_eq!(payload_value(&failed, "can_continue").unwrap(), "true");
    assert_eq!(payload_value(&failed, "query_error").unwrap(), "busy");
    assert_eq!(payload_value(&failed, "check_failure_kind").unwrap(), "max_sessions_reached");
    let other = lock_check_outcome(Err((LockQueryFailure::Other, "x".to_string()))).unwrap_err();
    assert_eq!(payload_value(&other, "detail").unwrap(), "目标路径占用状态检测失败");
    assert!(payload_value(&other, "check_failure_kind").is_none());
}

#[test]
fn dashboard_setting() {
    let id = "3f2504e0-4f89-11d3-9a0c-0305e82c3301";
    assert!(dashboard_enabled(id, CmdConfigRead::Missing));
    assert!(dashboard_enabled(id, CmdConfigRead::Parsed(Some(true))));
    assert!(!dashboard_enabled(id, CmdConfigRead::Parsed(Some(false))));
    assert!(!dashboard_enabled(id, CmdConfigRead::Parsed(None)));
    assert!(!dashboard_enabled(id, CmdConfigRead::Unreadable));
    assert!(!dashboard_enabled(id, CmdConfigRead::Unparsable));
    assert!(!dashboard_enabled("not-an-id", CmdConfigRead::Missing));
    assert_eq!(strip_bom("\u{feff}\u{feff}{\"a\":1}"), "{\"a\":1}");
    assert_eq!(strip_bom("{}"), "{}");
}

#[test]
fn windows_shims() {
    let vars = vec![("NPM_CONFIG_PREFIX".to_string(), "C:\\n d".to_string())];
    let dirs = vec!["C:\\a".to_string(), "C:\\b".to_string()];
    assert_eq!(
        cmd_shim_script(&vars, &dirs, "C:\\n\\node.exe"),
        "@echo off\r\nset \"NPM_CONFIG_PREFIX=C:\\n d\"\r\nset \"PATH=C:\\a;C:\\b;%PATH%\"\r\n\"C:\\n\\node.exe\" %*\r\n"
    );
    let vars2 = vec![("K".to_string(), "it's".to_string())];
    assert_eq!(
        ps1_shim_script(&vars2, &dirs, "C:\\o'k\\node.exe"),
        "$env:K = 'it''s'\r\n$env:PATH = 'C:\\a;C:\\b;' + $env:PATH\r\n& 'C:\\o''k\\node.exe' @args\r\n"
    );
    assert_eq!(ps_quote("''"), "''''");
}

#[test]
fn mirror_page_links() {
    let body = "<a href=\"cpython-3.12.1%2B20240107-x86_64-unknown-linux-gnu-install_only.tar.gz\">x</a>\n<a href='../'>up</a><a href=\"cpython-3.12.1%2B20240107-x86_64-unknown-linux-gnu-install_only.tar.gz\">dup</a><a href=\"notes.txt\">n</a>";
    let names = mirror_python_asset_names(body).unwrap();
    assert_eq!(
        names,
        vec!["cpython-3.12.1+20240107-x86_64-unknown-linux-gnu-install_only.tar.gz".to_string()]
    );
}

#[test]
fn mirror_page_plain_listing() {
    let body = "a.tar.gz  readme\n b.tar.gz\ta.tar.gz";
    assert_eq!(
        mirror_python_asset_names(body).unwrap(),
        vec!["a.tar.gz".to_string(), "b.tar.gz".to_string()]
    );
}

#[test]
fn mirror_page_without_assets() {
    let e = mirror_python_asset_names("<html>nothing here</html>").unwrap_err();
    assert_eq!(e.kind(), ErrorKind::Python);
    assert_eq!(
        e.payload()[0].1,
        "Failed to parse python mirror asset list".to_string()
    );
}

#[test]
fn compressed_member_names() {
    assert_eq!(astrbot_launcher::file_ops::compress_member_name("plugins", Some("x/y.py")), "plugins/x/y.py");
    assert_eq!(astrbot_launcher::file_ops::compress_member_name("a.txt", None), "a.txt");
}

#[test]
fn locking_processes_are_listed_as_a_json_array() {
    let p = |pid: u32, name: &str| LockingProcess {
        pid,
        executable_path: None,
        app_name: name.to_string(),
        service_short_name: String::new(),
    };
    let locked = lock_check_outcome(Ok(vec![p(1, "x\\y"), p(2, "tab\there\u{1}")])).unwrap_err();
    assert_eq!(
        payload_value(&locked, "locking_processes").unwrap(),
        "[\"PID 1 (x\\\\y)\",\"PID 2 (tab\\there\\u0001)\"]"
    );
}
