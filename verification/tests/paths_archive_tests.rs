use astrbot_launcher::archive_path::{
    detect_common_top_dir, finalize_common_top_dir, first_segment, has_windows_drive_prefix,
    join_segments, normalize_entry_path, parse_entry_rel_path, scan_common_top_dir,
    strip_common_top_dir, validate_rel_link_target,
};
use astrbot_launcher::lexical_path::{candidate_path, ensure_within_dir, lexical_join, resolve_lexically, safe_join};
use astrbot_launcher::paths::{
    get_backups_dir, get_component_dir, get_instance_core_dir, get_instance_venv_dir,
    get_node_exe_path, get_python_exe_path, get_uv_exe_path, get_venv_python, get_version_zip_path,
    join, required_data_dirs,
};
use astrbot_launcher::validation::{
    backup_candidate_path, file_name, is_backup_filename, resolve_backup_path,
    resolve_version_zip_path, settle_backup_candidate, settle_version_zip, validate_instance_id, validate_version_tag, version_zip_candidate,
    PathProbe,
};

fn strs(v: &[&str]) -> Vec<String> {
    v.iter().map(|s| s.to_string()).collect()
}

#[test]
fn archive_entry_paths() {
    assert_eq!(parse_entry_rel_path("a\\b/./c//d"), Some(strs(&["a", "b", "c", "d"])));
    assert_eq!(parse_entry_rel_path("a/../b"), None);
    assert_eq!(parse_entry_rel_path("/etc/passwd"), None);
    assert_eq!(parse_entry_rel_path("C:/x"), None);
    assert_eq!(parse_entry_rel_path("./"), None);
    assert_eq!(parse_entry_rel_path("a\u{7}b"), None);
    assert_eq!(normalize_entry_path("a\\b\\c"), "a/b/c");
    assert!(has_windows_drive_prefix("c:\\x"));
    assert!(!has_windows_drive_prefix("1:x"));
    assert_eq!(first_segment("top/x/y"), Some("top".to_string()));
    assert_eq!(join_segments(&strs(&["a", "b"])), "a/b");
}

#[test]
fn common_top_directory() {
    assert_eq!(
        detect_common_top_dir(&strs(&["AstrBot-4.1.0/", "AstrBot-4.1.0/main.py", "AstrBot-4.1.0/data/x"])),
        Some("AstrBot-4.1.0".to_string())
    );
    assert_eq!(detect_common_top_dir(&strs(&["a/x", "b/y"])), None);
    assert_eq!(detect_common_top_dir(&strs(&["only.txt"])), None);
    let mut cand = None;
    let mut nested = false;
    let mut valid = true;
    scan_common_top_dir("top/a", &mut cand, &mut nested, &mut valid);
    scan_common_top_dir("top", &mut cand, &mut nested, &mut valid);
    assert_eq!(finalize_common_top_dir(cand.clone(), nested, valid), Some("top".to_string()));
    scan_common_top_dir("other/b", &mut cand, &mut nested, &mut valid);
    assert!(!valid);
    assert_eq!(strip_common_top_dir(&strs(&["top", "main.py"]), Some("top")), Some(strs(&["main.py"])));
    assert_eq!(strip_common_top_dir(&strs(&["top"]), Some("top")), None);
    assert_eq!(strip_common_top_dir(&strs(&["x", "y"]), None), Some(strs(&["x", "y"])));
    assert_eq!(strip_common_top_dir(&strs(&["x", "y"]), Some("top")), None);
}

#[test]
fn link_targets() {
    assert!(validate_rel_link_target("../lib/x.so", "symlink").is_ok());
    assert_eq!(validate_rel_link_target("", "symlink").unwrap_err().message(), "Io: detail=symlink target path is empty");
    assert_eq!(
        validate_rel_link_target("/etc/passwd", "hard link").unwrap_err().message(),
        "Io: detail=absolute hard link targets are not allowed in archives"
    );
    assert_eq!(
        validate_rel_link_target("D:evil", "symlink").unwrap_err().message(),
        "Io: detail=symlink target uses unsupported Windows path prefix"
    );
}

#[test]
fn file_manager_paths_stay_inside_the_root() {
    assert_eq!(lexical_join("/srv/core", "data/config.json").unwrap(), "/srv/core/data/config.json");
    assert_eq!(lexical_join("/srv/core", "/data/./x/../y").unwrap(), "/srv/core/data/y");
    assert_eq!(lexical_join("/srv/core", "").unwrap(), "/srv/core");
    let e = lexical_join("/srv/core", "../../etc/passwd").unwrap_err();
    assert_eq!(e.message(), "Other: detail=路径越界（禁止访问 core 目录之外）");
    assert!(lexical_join("/srv/core", "../core2/x").is_err());
}

#[test]
fn file_manager_paths_stay_inside_the_root_on_disk() {
    // Resolved inside the canonical root: accepted, the lexical path comes back.
    assert_eq!(
        safe_join("/srv/core", "data/config.json", "/real/core", "/real/core/data/config.json").unwrap(),
        "/srv/core/data/config.json"
    );
    assert_eq!(safe_join("/srv/core", "", "/real/core", "/real/core").unwrap(), "/srv/core");
    // A link inside core that points outside: refused.
    let e = safe_join("/srv/core", "link/passwd", "/real/core", "/etc/passwd").unwrap_err();
    assert_eq!(e.message(), "Other: detail=路径越界（禁止访问 core 目录之外）");
    // A sibling whose name starts with the root's name is outside.
    assert!(safe_join("/srv/core", "x", "/real/core", "/real/core2/x").is_err());
    // A lexical escape is refused whatever the resolution says.
    assert!(safe_join("/srv/core", "../etc", "/real/core", "/real/core/etc").is_err());
}

#[test]
fn lexical_resolution() {
    assert_eq!(resolve_lexically("/a/b/../c/./d"), Some("/a/c/d".to_string()));
    assert_eq!(resolve_lexically("a/../.."), None);
    assert_eq!(candidate_path("/dest", "x/y"), "/dest/x/y");
    assert_eq!(candidate_path("/dest", "/abs"), "/abs");
    assert!(ensure_within_dir("/dest", "/dest/x").is_ok());
    let e = ensure_within_dir("/dest", "/destination/x").unwrap_err();
    assert_eq!(e.message(), "Io: detail=archive contains path escaping destination — not a legitimate archive");
}

#[test]
fn data_layout() {
    let id = "123e4567-e89b-12d3-a456-426614174000";
    assert_eq!(join("/d", "x"), "/d/x");
    assert_eq!(join("/d/", "x"), "/d/x");
    assert_eq!(get_instance_core_dir("/d", id), format!("/d/instances/{id}/core"));
    assert_eq!(get_instance_venv_dir("/d", id), format!("/d/instances/{id}/venv"));
    assert_eq!(get_backups_dir("/d"), "/d/backups");
    assert_eq!(get_version_zip_path("/d", "v4.1.0"), "/d/versions/v4.1.0.zip");
    assert_eq!(get_component_dir("/d", "uv"), "/d/components/uv");
    assert_eq!(get_venv_python("/v"), "/v/bin/python");
    assert_eq!(get_python_exe_path("/p"), "/p/bin/python3");
    assert_eq!(get_node_exe_path("/n"), "/n/bin/node");
    assert_eq!(get_uv_exe_path("/u"), "/u/uv");
    assert_eq!(required_data_dirs("/d"), strs(&["/d", "/d/components", "/d/versions", "/d/instances", "/d/backups"]));
}

#[test]
fn instance_ids_and_version_tags() {
    assert!(validate_instance_id("123e4567-e89b-12d3-a456-426614174000").is_ok());
    assert!(validate_instance_id("123E4567E89B12D3A456426614174000").is_ok());
    assert!(validate_instance_id("{123e4567-e89b-12d3-a456-426614174000}").is_ok());
    assert!(validate_instance_id("urn:uuid:123e4567-e89b-12d3-a456-426614174000").is_ok());
    assert!(validate_instance_id("../../etc").is_err());
    assert!(validate_instance_id("").is_err());
    assert!(validate_version_tag("v4.1.0-rc.1+build").is_ok());
    let e = validate_version_tag("v4/../x").unwrap_err();
    assert_eq!(e.message(), "VersionNotFound: version=v4/../x");
}

#[test]
fn backup_locations() {
    assert_eq!(file_name("/a/b/c.zip"), Some("c.zip".to_string()));
    assert_eq!(file_name("/a/.."), None);
    assert!(is_backup_filename("/x/B.TAR.GZ"));
    assert!(!is_backup_filename("/x/b.txt"));
    assert_eq!(backup_candidate_path("/d/backups", "../../elsewhere/x.zip").unwrap(), "/d/backups/x.zip");
    assert_eq!(backup_candidate_path("/d/backups", "/").unwrap_err().message(), "Backup: detail=Invalid backup path");
    assert_eq!(backup_candidate_path("/d/backups", "a.txt").unwrap_err().message(), "Backup: detail=Invalid backup filename");
    assert_eq!(resolve_backup_path("/d/backups", "x.zip", PathProbe::Missing, false, "/d/backups").unwrap(), "/d/backups/x.zip");
    assert_eq!(resolve_backup_path("/d/backups", "x.zip", PathProbe::Missing, true, "/d/backups").unwrap_err().message(), "Backup");
    assert_eq!(
        resolve_backup_path("/d/backups", "x.zip", PathProbe::Resolved("/other/x.zip".to_string()), true, "/d/backups")
            .unwrap_err()
            .message(),
        "Backup: detail=Backup path is outside backups directory"
    );
    assert_eq!(
        resolve_backup_path("/d/backups", "x.zip", PathProbe::Failed("loop".to_string()), true, "/d/backups")
            .unwrap_err()
            .message(),
        "Backup: detail=Failed to resolve backup path: loop"
    );
    assert_eq!(
        resolve_backup_path("/d/backups", "../../etc/x.zip", PathProbe::Missing, false, "/d/backups").unwrap(),
        "/d/backups/x.zip"
    );
    assert_eq!(
        resolve_backup_path("/d/backups", "a/..", PathProbe::Missing, false, "/d/backups").unwrap_err().message(),
        "Backup: detail=Invalid backup path"
    );
    assert_eq!(
        resolve_backup_path("/d/backups", "notes.txt", PathProbe::Missing, false, "/d/backups").unwrap_err().message(),
        "Backup: detail=Invalid backup filename"
    );
    assert_eq!(
        settle_backup_candidate("/d/backups/y.tar.gz", PathProbe::Resolved("/d/backups/y.tar.gz".to_string()), true, "/d/backups")
            .unwrap(),
        "/d/backups/y.tar.gz"
    );
}

#[test]
fn version_archive_locations() {
    assert_eq!(version_zip_candidate("/d/versions", "v4.1.0").unwrap(), "/d/versions/v4.1.0.zip");
    assert_eq!(version_zip_candidate("/d/versions", "").unwrap_err().kind(), astrbot_launcher::error::ErrorKind::VersionNotFound);
    assert_eq!(
        resolve_version_zip_path("/d/versions", "v1", PathProbe::Missing, "/real/versions").unwrap(),
        "/d/versions/v1.zip"
    );
    assert_eq!(
        resolve_version_zip_path("/d/versions", "v1", PathProbe::Resolved("/real/versions/v1.zip".to_string()), "/real/versions")
            .unwrap(),
        "/real/versions/v1.zip"
    );
    assert_eq!(
        resolve_version_zip_path("/d/versions", "v1", PathProbe::Resolved("/tmp/v1.zip".to_string()), "/real/versions")
            .unwrap_err()
            .message(),
        "Io: detail=Version zip path is outside versions directory"
    );
    let bad = resolve_version_zip_path("/d/versions", "../v1", PathProbe::Missing, "/real/versions").unwrap_err();
    assert_eq!(bad.kind(), astrbot_launcher::error::ErrorKind::VersionNotFound);
    assert_eq!(
        resolve_version_zip_path("/d/versions", "", PathProbe::Missing, "/real/versions").unwrap_err().kind(),
        astrbot_launcher::error::ErrorKind::VersionNotFound
    );
    assert_eq!(
        settle_version_zip("/elsewhere/v1.zip", PathProbe::Missing, "/d/versions", "/real/versions").unwrap_err().message(),
        "Io: detail=Version zip path is outside versions directory"
    );
}
