use astrbot_launcher::dispatch::{command_id, parse_request, signature, ArgKind, ArgOut, ArgValue, CommandId};

fn arg(k: &str, v: ArgValue) -> (String, ArgValue) {
    (k.to_string(), v)
}

#[test]
fn parses_create_instance_arguments() {
    let args = vec![
        arg("name", ArgValue::Str("bot".to_string())),
        arg("version", ArgValue::Str("v4.0.0".to_string())),
        arg("port", ArgValue::U64(6185)),
    ];
    let (id, outs) = parse_request("create_instance", &args).unwrap();
    assert_eq!(id, CommandId::CreateInstance);
    assert_eq!(outs.len(), 3);
    assert!(matches!(&outs[0], ArgOut::Str(s) if s == "bot"));
    assert!(matches!(&outs[1], ArgOut::Str(s) if s == "v4.0.0"));
    assert!(matches!(outs[2], ArgOut::U16(6185)));
}

#[test]
fn port_numbers_are_kept_modulo_65536() {
    let args = vec![
        arg("name", ArgValue::Str("bot".to_string())),
        arg("version", ArgValue::Str("v4.0.0".to_string())),
        arg("port", ArgValue::U64(70000)),
    ];
    let (_, outs) = parse_request("create_instance", &args).unwrap();
    assert!(matches!(outs[2], ArgOut::U16(4464)));
}

#[test]
fn first_missing_argument_is_reported() {
    let args = vec![arg("name", ArgValue::Str("bot".to_string()))];
    let e = parse_request("create_instance", &args).unwrap_err();
    assert_eq!(e.message(), "Other: detail=缺少参数: version");
}

#[test]
fn wrongly_typed_argument_counts_as_missing() {
    let args = vec![arg("close_to_tray", ArgValue::Str("true".to_string()))];
    let e = parse_request("save_close_to_tray", &args).unwrap_err();
    assert_eq!(e.message(), "Other: detail=缺少参数: close_to_tray");
    let args = vec![arg("close_to_tray", ArgValue::Bool(false))];
    let (id, outs) = parse_request("save_close_to_tray", &args).unwrap();
    assert_eq!(id, CommandId::SaveCloseToTray);
    assert!(matches!(outs[0], ArgOut::Bool(false)));
}

#[test]
fn unknown_command_is_refused() {
    let e = parse_request("format_disk", &Vec::new()).unwrap_err();
    assert_eq!(e.message(), "Other: detail=未知命令: format_disk");
    assert_eq!(command_id("Get_App_Snapshot"), None);
}

#[test]
fn optional_arguments_default_to_absent() {
    let args = vec![
        arg("instance_id", ArgValue::Str("abc".to_string())),
        arg("port", ArgValue::U64(8080)),
        arg("host", ArgValue::Other),
    ];
    let (id, outs) = parse_request("update_instance", &args).unwrap();
    assert_eq!(id, CommandId::UpdateInstance);
    assert!(matches!(&outs[0], ArgOut::Str(s) if s == "abc"));
    assert!(matches!(outs[1], ArgOut::OptStr(None)));
    assert!(matches!(outs[2], ArgOut::OptStr(None)));
    assert!(matches!(outs[3], ArgOut::OptStr(None)));
    assert!(matches!(outs[4], ArgOut::OptU16(Some(8080))));
}

#[test]
fn typed_arguments_only_need_to_be_present() {
    let args = vec![arg("target", ArgValue::Other), arg("backup_path", ArgValue::Str("/b.zip".to_string()))];
    let (id, outs) = parse_request("check_lock", &args).unwrap();
    assert_eq!(id, CommandId::CheckLock);
    assert!(matches!(outs[0], ArgOut::Typed));
    assert!(matches!(outs[1], ArgOut::OptStr(None)));
    assert!(matches!(&outs[2], ArgOut::OptStr(Some(p)) if p == "/b.zip"));
    let e = parse_request("check_lock", &Vec::new()).unwrap_err();
    assert_eq!(e.message(), "Other: detail=缺少参数: target");
}

#[test]
fn commands_without_arguments() {
    let (id, outs) = parse_request("get_app_snapshot", &vec![arg("extra", ArgValue::Bool(true))]).unwrap();
    assert_eq!(id, CommandId::GetAppSnapshot);
    assert!(outs.is_empty());
    assert!(signature(CommandId::StopManager).is_empty());
    let sig = signature(CommandId::SaveProxy);
    let names: Vec<&str> = sig.iter().map(|p| p.0).collect();
    assert_eq!(names, vec!["proxy_url", "proxy_port", "proxy_username", "proxy_password"]);
    assert!(sig.iter().all(|p| p.1 == ArgKind::Str));
}

#[test]
fn fetch_releases_reads_an_optional_flag() {
    let (id, outs) = parse_request("fetch_releases", &vec![arg("force_refresh", ArgValue::Bool(true))]).unwrap();
    assert_eq!(id, CommandId::FetchReleases);
    assert!(matches!(outs[0], ArgOut::OptBool(Some(true))));
    let (_, outs) = parse_request("fetch_releases", &Vec::new()).unwrap();
    assert!(matches!(outs[0], ArgOut::OptBool(None)));
}
