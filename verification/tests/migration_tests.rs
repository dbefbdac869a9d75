use astrbot_launcher::manifest::{AppManifest, InstalledVersion, InstanceConfig};
use astrbot_launcher::migration::{
    combine_legacy_manifests, has_manifest_fields, legacy_python_moves, move_dir_action,
    pe_machine, pe_nt_offset, replace_all_vec, rewrite_pyvenv_cfg, runtime_needs_replacement,
    MoveDirAction, IMAGE_FILE_MACHINE_AMD64, IMAGE_FILE_MACHINE_ARM64,
};

fn chars(s: &str) -> Vec<char> {
    s.chars().collect()
}

#[test]
fn legacy_directory_moves() {
    assert_eq!(move_dir_action(false, true), MoveDirAction::Nothing);
    assert_eq!(move_dir_action(true, true), MoveDirAction::RemoveSource);
    assert_eq!(move_dir_action(true, false), MoveDirAction::Rename);
    let moves = legacy_python_moves("/d");
    assert_eq!(
        moves,
        vec![
            ("/d/python".to_string(), "/d/components/python/py312".to_string()),
            ("/d/compat_python".to_string(), "/d/components/python/py310".to_string()),
        ]
    );
}

#[test]
fn replacement_matches_str_replace() {
    let cases = [("a/b/a/b", "a", "xy"), ("aaaa", "aa", "b"), ("ab", "", "-"), ("none", "z", "q")];
    for (s, p, t) in cases {
        let r: String = replace_all_vec(&chars(s), &chars(p), &chars(t)).into_iter().collect();
        assert_eq!(r, s.replace(p, t));
    }
}

#[test]
fn pyvenv_cfg_points_at_new_runtime() {
    let repl = vec![
        ("/d/python".to_string(), "/d/components/python/py312".to_string()),
        ("/d/compat_python".to_string(), "/d/components/python/py310".to_string()),
    ];
    let cfg = "home = /d/python/bin\nversion = 3.12.9\n";
    assert_eq!(
        rewrite_pyvenv_cfg(cfg, &repl),
        Some("home = /d/components/python/py312/bin\nversion = 3.12.9\n".to_string())
    );
    let cfg = "home = /d/compat_python/bin\n";
    assert_eq!(rewrite_pyvenv_cfg(cfg, &repl), Some("home = /d/components/python/py310/bin\n".to_string()));
    assert_eq!(rewrite_pyvenv_cfg("home = /usr/bin\n", &repl), None);
}

#[test]
fn pe_headers_give_the_machine() {
    let mut dos = vec![0u8; 0x40];
    dos[0] = b'M';
    dos[1] = b'Z';
    dos[0x3C] = 0x80;
    dos[0x3D] = 0x01;
    assert_eq!(pe_nt_offset(&dos), Ok(0x180));
    assert_eq!(pe_nt_offset(&vec![b'M', b'Z']), Err("File too small for DOS header"));
    dos[0] = b'X';
    assert_eq!(pe_nt_offset(&dos), Err("Invalid DOS signature"));
    assert_eq!(pe_machine(&vec![b'P', b'E', 0, 0, 0x64, 0x86]), Ok(IMAGE_FILE_MACHINE_AMD64));
    assert_eq!(pe_machine(&vec![b'P', b'E', 0, 0, 0x64, 0xAA]), Ok(IMAGE_FILE_MACHINE_ARM64));
    assert_eq!(pe_machine(&vec![b'P', b'E', 0]), Err("NT/COFF header out of bounds"));
    assert_eq!(pe_machine(&vec![b'N', b'E', 0, 0, 0, 0]), Err("Invalid NT signature"));
    assert!(runtime_needs_replacement(Some(IMAGE_FILE_MACHINE_ARM64)));
    assert!(!runtime_needs_replacement(Some(IMAGE_FILE_MACHINE_AMD64)));
    assert!(!runtime_needs_replacement(None));
}

#[test]
fn legacy_config_carries_manifest_data() {
    assert!(has_manifest_fields("mainland_acceleration = true\n[instances]\n"));
    assert!(has_manifest_fields("tracked_instances_snapshot = []\n"));
    assert!(!has_manifest_fields("mainland_acceleration = true\nproxy_url = \"\"\n"));
    assert!(!has_manifest_fields("not toml [[["));
}

fn inst(name: &str) -> InstanceConfig {
    InstanceConfig {
        name: name.to_string(),
        version: "v1".to_string(),
        host: "0.0.0.0".to_string(),
        port: 0,
        created_at: "c".to_string(),
    }
}

#[test]
fn manifest_file_keeps_priority_over_config() {
    let file = AppManifest {
        instances: vec![("a".to_string(), inst("from-file"))],
        installed_versions: vec![InstalledVersion { version: "v1".to_string(), zip_path: "f".to_string() }],
        tracked_instances_snapshot: vec!["a".to_string()],
    };
    let conf = AppManifest {
        instances: vec![("a".to_string(), inst("from-config")), ("b".to_string(), inst("only-config"))],
        installed_versions: vec![
            InstalledVersion { version: "v1".to_string(), zip_path: "c".to_string() },
            InstalledVersion { version: "v2".to_string(), zip_path: "c2".to_string() },
        ],
        tracked_instances_snapshot: vec!["b".to_string(), "a".to_string()],
    };
    let m = combine_legacy_manifests(Some(file), Some(conf)).unwrap();
    let a = m.instances.iter().find(|p| p.0 == "a").unwrap();
    assert_eq!(a.1.name, "from-file");
    assert!(m.instances.iter().any(|p| p.0 == "b"));
    let versions: Vec<(&str, &str)> =
        m.installed_versions.iter().map(|v| (v.version.as_str(), v.zip_path.as_str())).collect();
    assert_eq!(versions, vec![("v1", "f"), ("v2", "c2")]);
    assert_eq!(m.tracked_instances_snapshot, vec!["a".to_string(), "b".to_string()]);
    assert!(combine_legacy_manifests(None, None).is_none());
}
