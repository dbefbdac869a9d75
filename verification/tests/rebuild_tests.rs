use astrbot_launcher::manifest::{AppManifest, InstanceConfig};
use astrbot_launcher::rebuild::{
    rebuild_instance_manifest_from_disk, scan_installed_versions, scan_instances, ScannedInstanceDir,
};

const ID1: &str = "123e4567-e89b-12d3-a456-426614174000";
const ID2: &str = "a0eebc99-9c0b-4ef8-bb6d-6bb9bd380a11";

fn dir(name: &str, has_content: bool, pyproject: Option<&str>) -> ScannedInstanceDir {
    ScannedInstanceDir {
        name: name.to_string(),
        has_content,
        pyproject: pyproject.map(|s| s.to_string()),
    }
}

#[test]
fn version_archives_become_installed_versions() {
    let files = vec![
        ("v4.0.0.zip".to_string(), "/d/versions/v4.0.0.zip".to_string()),
        ("notes.txt".to_string(), "/d/versions/notes.txt".to_string()),
        ("v3.5.2.zip".to_string(), "/d/versions/v3.5.2.zip".to_string()),
    ];
    let v = scan_installed_versions(&files);
    assert_eq!(v.len(), 2);
    assert_eq!(v[0].version, "v4.0.0");
    assert_eq!(v[0].zip_path, "/d/versions/v4.0.0.zip");
    assert_eq!(v[1].version, "v3.5.2");
}

#[test]
fn instance_directories_with_a_project_version_are_kept() {
    let dirs = vec![
        dir(ID1, true, Some("[project]\nname = \"AstrBot\"\nversion = \"4.1.0\"\n")),
        dir("not-a-uuid", true, Some("[project]\nversion = \"4.1.0\"\n")),
        dir(ID2, false, Some("[project]\nversion = \"4.1.0\"\n")),
    ];
    let found = scan_instances(&dirs, "0.0.0.0", "2024-01-01T00:00:00Z");
    assert_eq!(found.len(), 1);
    assert_eq!(found[0].0, ID1);
    assert_eq!(found[0].1.name, "Rev 123e4567");
    assert_eq!(found[0].1.version, "v4.1.0");
    assert_eq!(found[0].1.host, "0.0.0.0");
    assert_eq!(found[0].1.port, 0);
    assert_eq!(found[0].1.created_at, "2024-01-01T00:00:00Z");
}

#[test]
fn pyproject_without_usable_version_is_skipped() {
    let dirs = vec![
        dir(ID1, true, Some("[project]\nname = \"x\"\n")),
        dir(ID2, true, Some("this is [[[ not toml")),
    ];
    assert!(scan_instances(&dirs, "h", "t").is_empty());
    let dirs = vec![dir(ID1, true, Some("[project]\nversion = \"v4.2.0 \"\n")), dir(ID2, true, None)];
    let found = scan_instances(&dirs, "h", "t");
    assert_eq!(found.len(), 1);
    assert_eq!(found[0].1.version, "v4.2.0");
}

#[test]
fn rebuild_replaces_lists_and_keeps_known_running_ids() {
    let mut m = AppManifest {
        instances: vec![(
            "old".to_string(),
            InstanceConfig {
                name: "x".to_string(),
                version: "v1".to_string(),
                host: "h".to_string(),
                port: 1,
                created_at: "c".to_string(),
            },
        )],
        installed_versions: Vec::new(),
        tracked_instances_snapshot: vec![ID1.to_string(), "old".to_string()],
    };
    let files = vec![("v4.1.0.zip".to_string(), "/d/versions/v4.1.0.zip".to_string())];
    let dirs = vec![dir(ID1, true, Some("[project]\nversion = \"4.1.0\"\n"))];
    let r = rebuild_instance_manifest_from_disk(&mut m, &files, &dirs, "0.0.0.0", "now");
    assert_eq!(r.instances, 1);
    assert_eq!(r.versions, 1);
    assert_eq!(m.instances.len(), 1);
    assert_eq!(m.instances[0].0, ID1);
    assert_eq!(m.installed_versions[0].version, "v4.1.0");
    assert_eq!(m.tracked_instances_snapshot, vec![ID1.to_string()]);
}
