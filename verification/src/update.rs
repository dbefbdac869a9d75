//! Deciding whether an instance update changes its version, and the error
//! reported when the automatic backup taken for a version change cannot be
//! restored.

use vstd::prelude::*;
use vstd::string::*;

use crate::error::{detail_payload, message_spec, AppError, ErrorKind};
use crate::manifest::{is_installed, AppManifest};
use crate::text::{chars_of, concat_str, eq_vec, str_to_string};

verus! {

/// The target version of an update: the requested version when it differs
/// from the instance's current one (and is then installed), else none.
/// Unknown instances and uninstalled targets are errors.
pub fn version_change(manifest: &AppManifest, instance_id: &str, version: Option<&str>) -> (r: Result<
    Option<String>,
    AppError,
>)
    requires
        manifest.wf(),
    ensures
        !manifest.instances_map().dom().contains(instance_id@) ==> (r matches Err(e) && e@ == (
            ErrorKind::InstanceNotFound,
            seq![("id"@, instance_id@)],
        )),
        manifest.instances_map().dom().contains(instance_id@) ==> {
            let current = manifest.instances_map()[instance_id@].version@;
            match version {
                None => r == Ok::<Option<String>, AppError>(None),
                Some(v) => if v@ == current {
                    r == Ok::<Option<String>, AppError>(None)
                } else if is_installed(manifest.installed_versions@, v@) {
                    r matches Ok(Some(t)) && t@ == v@
                } else {
                    r matches Err(e) && e@ == (ErrorKind::VersionNotFound, seq![("version"@, v@)])
                },
            }
        },
{
    let inst = match manifest.instance(instance_id) {
        Some(i) => i,
        None => return Err(AppError::instance_not_found(instance_id)),
    };
    match version {
        None => Ok(None),
        Some(v) => {
            if eq_vec(&chars_of(inst.version.as_str()), &chars_of(v)) {
                Ok(None)
            } else {
                match manifest.ensure_version_installed(v) {
                    Ok(()) => Ok(Some(str_to_string(v))),
                    Err(e) => Err(e),
                }
            }
        },
    }
}

pub open spec fn restore_failure_message(backup_path: Seq<char>, cause: Seq<char>) -> Seq<char> {
    "自动备份还原失败，已保留备份 "@ + backup_path
        + "。请在“备份管理”中手动恢复该备份并确认数据。原始错误: "@ + cause
}

/// The error when the data saved before a version change cannot be put back:
/// it names the kept backup and the original failure.
pub fn restore_failure_error(backup_path: &str, cause: &AppError) -> (e: AppError)
    ensures
        e@ == (ErrorKind::Backup, detail_payload(restore_failure_message(backup_path@, message_spec(cause@)))),
{
    let a = concat_str("自动备份还原失败，已保留备份 ", backup_path);
    let b = concat_str(a.as_str(), "。请在“备份管理”中手动恢复该备份并确认数据。原始错误: ");
    let m = concat_str(b.as_str(), cause.message().as_str());
    AppError::backup(m.as_str())
}

} // verus!
