use astrbot_launcher::extract::{
    check_entry_path, check_written_size, choose_hard_link_target, entry_action, ArchiveFormat,
    EntryAction, EntryKind, ExtractedFiles,
};

#[test]
fn safe_entry_paths_are_split() {
    assert_eq!(check_entry_path(ArchiveFormat::TarGz, "data/config/x.json").unwrap(), vec!["data", "config", "x.json"]);
}

#[test]
fn unsafe_entry_paths_stop_extraction() {
    let e = check_entry_path(ArchiveFormat::TarGz, "../etc/passwd").unwrap_err();
    assert_eq!(e.message(), "Io: detail=archive contains unsafe entry path: \"../etc/passwd\"");
    let e = check_entry_path(ArchiveFormat::Zip, "/abs/file").unwrap_err();
    assert_eq!(e.message(), "Io: detail=archive contains unsafe zip path: \"/abs/file\"");
}

#[test]
fn entry_kinds_map_to_actions() {
    assert_eq!(entry_action(&EntryKind::Directory, "d/").unwrap(), EntryAction::MakeDir);
    assert_eq!(entry_action(&EntryKind::Regular, "f").unwrap(), EntryAction::WriteFile);
    assert_eq!(entry_action(&EntryKind::Symlink, "l").unwrap(), EntryAction::QueueSymlink);
    assert_eq!(entry_action(&EntryKind::HardLink, "h").unwrap(), EntryAction::LinkHard);
    let e = entry_action(&EntryKind::Other("Fifo".to_string()), "pipe").unwrap_err();
    assert_eq!(e.message(), "Io: detail=unsupported tar entry type at \"pipe\": Fifo");
}

#[test]
fn extracted_files_remember_what_was_written() {
    let mut files = ExtractedFiles::new();
    assert!(!files.contains("/d/a"));
    files.record("/d/a");
    files.record("/d/b");
    assert!(files.contains("/d/a"));
    assert!(files.contains("/d/b"));
    assert!(!files.contains("/d/c"));
}

#[test]
fn hard_links_point_at_earlier_files() {
    let mut files = ExtractedFiles::new();
    files.record("/d/b");
    let c = vec!["/d/a".to_string(), "/d/b".to_string()];
    assert_eq!(choose_hard_link_target(&c, &files).unwrap(), "/d/b");
    files.record("/d/a");
    assert_eq!(choose_hard_link_target(&c, &files).unwrap(), "/d/a");
    let e = choose_hard_link_target(&vec!["/d/z".to_string()], &files).unwrap_err();
    assert_eq!(e.message(), "Io: detail=hard link target is unsafe or was not extracted earlier in the archive");
}

#[test]
fn written_size_must_match_declared() {
    assert!(check_written_size(Some(5), 5).is_ok());
    assert!(check_written_size(None, 7).is_ok());
    let e = check_written_size(Some(10), 9).unwrap_err();
    assert_eq!(e.message(), "Io: detail=archive entry size mismatch: expected 10 bytes, wrote 9 bytes");
}
