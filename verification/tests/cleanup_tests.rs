use astrbot_launcher::cleanup::{clear_pycache, file_extension, pycache_action, CleanupAction};

const ID: &str = "123e4567-e89b-12d3-a456-426614174000";

#[test]
fn extensions_follow_path_rules() {
    assert_eq!(file_extension("mod.pyc"), Some("pyc".to_string()));
    assert_eq!(file_extension("archive.tar.gz"), Some("gz".to_string()));
    assert_eq!(file_extension(".bashrc"), None);
    assert_eq!(file_extension("README"), None);
    assert_eq!(file_extension("trailing."), Some(String::new()));
    assert_eq!(file_extension(".."), None);
}

#[test]
fn sweep_actions() {
    assert_eq!(pycache_action(true, false, "__pycache__"), CleanupAction::RemoveDir);
    assert_eq!(pycache_action(false, true, "m.cpython-312.pyc"), CleanupAction::RemoveFile);
    assert_eq!(pycache_action(false, true, ".pyc"), CleanupAction::Keep);
    assert_eq!(pycache_action(true, false, "cache.pyc"), CleanupAction::Keep);
    assert_eq!(pycache_action(false, true, "main.py"), CleanupAction::Keep);
}

#[test]
fn sweep_directories_of_an_instance() {
    let dirs = clear_pycache("/data", ID, true, true).unwrap();
    assert_eq!(dirs, vec![format!("/data/instances/{ID}/core"), format!("/data/instances/{ID}/venv")]);
    let dirs = clear_pycache("/data", ID, false, true).unwrap();
    assert_eq!(dirs, vec![format!("/data/instances/{ID}/venv")]);
    let e = clear_pycache("/data", "../x", true, true).unwrap_err();
    assert_eq!(e.message(), "Other: detail=Invalid instance id");
}
