//! Decisions behind the command layer: version ordering, the settings checks
//! that guard a save, the lock-check subject, and the assembled snapshot.

use vstd::prelude::*;
use vstd::string::*;

use crate::backup::{lemma_insert_multiset, lemma_seq_lt_trichotomy, seq_lt, str_less, BackupInfo};
use crate::component::{from_str_id_spec, ComponentId, ComponentsSnapshot};
use crate::config::AppConfig;
use crate::error::{detail_payload, AppError, ErrorKind};
use crate::instances::InstanceStatus;
use crate::manifest::InstalledVersion;
use crate::network_config::{default_index_spec, normalize_default_index};
use crate::text::{
    chars_of, concat_str, string_from_chars, str_to_string, trim, trim_start_char,
    trim_start_char_vec, trim_vec,
};
use crate::version_order::{semver_compare, semver_order};

verus! {

/// The release tag of a launcher version: the version itself when it
/// starts with `v`, else `v` and the version.
pub fn launcher_release_tag(version: &str) -> (r: String)
    ensures
        r@ == (if version@.len() > 0 && version@[0] == 'v' {
            version@
        } else {
            "v"@ + version@
        }),
{
    let cs = chars_of(version);
    if cs.len() > 0 && cs[0] == 'v' {
        str_to_string(version)
    } else {
        concat_str("v", version)
    }
}

/// The error for a request that lacks the named argument.
pub fn missing_arg(name: &str) -> (e: AppError)
    ensures
        e@.0 == ErrorKind::Other,
        e@.1 == detail_payload("缺少参数: "@ + name@),
{
    let m = concat_str("缺少参数: ", name);
    AppError::other(m.as_str())
}

/// A version text without its leading run of `v`.
pub open spec fn strip_v_prefix(s: Seq<char>) -> Seq<char> {
    trim_start_char(s, 'v')
}

/// The number an ordering answer stands for, 0 when there is none.
pub open spec fn order_value(o: Option<i8>) -> i32 {
    match o {
        Some(x) => x as i32,
        None => 0,
    }
}

/// How two version texts compare as semantic versions, a leading run of `v`
/// ignored: -1, 0 or 1, and 0 when either is no semantic version.
pub open spec fn version_compare_spec(a: Seq<char>, b: Seq<char>) -> i32 {
    order_value(semver_order(strip_v_prefix(a), strip_v_prefix(b)))
}

/// The number returned for an ordering answer.
pub fn version_order_result(o: Option<i8>) -> (r: i32)
    ensures
        r == order_value(o),
{
    match o {
        Some(x) => x as i32,
        None => 0,
    }
}

fn strip_v(s: &str) -> (r: String)
    ensures
        r@ == strip_v_prefix(s@),
{
    let v = trim_start_char_vec(&chars_of(s), 'v');
    string_from_chars(v.as_slice())
}

/// Compares two version texts as semantic versions; swapping them negates
/// the answer.
pub fn compare_versions(a: String, b: String) -> (r: i32)
    ensures
        r == version_compare_spec(a@, b@),
        -1 <= r <= 1,
        version_compare_spec(b@, a@) == -r,
{
    let sa = strip_v(a.as_str());
    let sb = strip_v(b.as_str());
    version_order_result(semver_compare(sa.as_str(), sb.as_str()))
}

/// Whether a text parses as a semantic version.
pub open spec fn parses(s: Seq<char>) -> bool {
    semver_order(s, s) is Some
}

/// Whether version `a` is listed before version `b`: higher semantic versions
/// first, then the texts that are no semantic version, in descending text order.
pub open spec fn listed_before(a: Seq<char>, b: Seq<char>) -> bool {
    let sa = strip_v_prefix(a);
    let sb = strip_v_prefix(b);
    if parses(sa) && parses(sb) {
        semver_order(sb, sa) == Some(-1i8)
    } else if parses(sa) {
        true
    } else if parses(sb) {
        false
    } else {
        seq_lt(b, a)
    }
}

fn version_parses(s: &str) -> (b: bool)
    ensures
        b == parses(s@),
{
    semver_compare(s, s).is_some()
}

/// Whether version `a` is listed before version `b`; never both ways round.
pub fn version_listed_before(a: &str, b: &str) -> (r: bool)
    ensures
        r == listed_before(a@, b@),
        r ==> !listed_before(b@, a@),
{
    let sa = strip_v(a);
    let sb = strip_v(b);
    let pa = version_parses(sa.as_str());
    let pb = version_parses(sb.as_str());
    if pa && pb {
        let o = semver_compare(sb.as_str(), sa.as_str());
        match o {
            Some(x) => x == -1,
            None => false,
        }
    } else if pa {
        true
    } else if pb {
        false
    } else {
        proof {
            lemma_seq_lt_trichotomy(a@, b@);
        }
        str_less(b, a)
    }
}

/// No neighbouring pair of the list is out of order.
pub open spec fn versions_in_listing_order(v: Seq<InstalledVersion>) -> bool {
    forall|k: int|
        0 <= k < v.len() - 1 ==> !listed_before(#[trigger] v[k + 1].version@, v[k].version@)
}

/// The installed versions in listing order: a stable insertion sort by
/// `listed_before`.
pub fn sort_installed_versions(v: Vec<InstalledVersion>) -> (r: Vec<InstalledVersion>)
    ensures
        versions_in_listing_order(r@),
        r@.to_multiset() == v@.to_multiset(),
{
    broadcast use vstd::seq_lib::group_to_multiset_ensures;

    let ghost all = v@;
    let mut rest = v;
    let mut out: Vec<InstalledVersion> = Vec::new();
    let ghost mut k: int = 0;
    while rest.len() > 0
        invariant
            0 <= k <= all.len(),
            rest@ == all.subrange(k, all.len() as int),
            versions_in_listing_order(out@),
            out@.to_multiset() == all.take(k).to_multiset(),
        decreases rest.len(),
    {
        let ghost rb = rest@;
        let x = rest.remove(0);
        proof {
            assert(x == rb[0]);
            assert(all.subrange(k, all.len() as int)[0] == all[k]);
            assert(rest@ =~= all.subrange(k + 1, all.len() as int));
            assert(all.take(k + 1) =~= all.take(k).push(all[k]));
        }
        let mut p: usize = 0;
        let mut stop = false;
        while p < out.len() && !stop
            invariant
                p <= out@.len(),
                p > 0 ==> !listed_before(x.version@, out@[p - 1].version@),
                stop ==> p < out@.len() && listed_before(x.version@, out@[p as int].version@)
                    && !listed_before(out@[p as int].version@, x.version@),
            decreases out.len() - p + (if stop { 0int } else { 1int }),
        {
            if version_listed_before(x.version.as_str(), out[p].version.as_str()) {
                stop = true;
            } else {
                p = p + 1;
            }
        }
        let ghost before = out@;
        proof {
            lemma_insert_multiset(before, p as int, x);
            let t = before.insert(p as int, x);
            assert forall|q: int| 0 <= q < t.len() - 1 implies !listed_before(
                #[trigger] t[q + 1].version@,
                t[q].version@,
            ) by {
                if q + 1 < p {
                    assert(t[q + 1] == before[q + 1] && t[q] == before[q]);
                    assert(!listed_before(before[q + 1].version@, before[q].version@));
                } else if q + 1 == p {
                    assert(t[q + 1] == x && t[q] == before[q]);
                } else if q == p {
                    assert(stop);
                    assert(t[q] == x && t[q + 1] == before[q]);
                } else {
                    assert(t[q + 1] == before[q] && t[q] == before[q - 1]);
                    let k = q - 1;
                    assert(!listed_before(before[k + 1].version@, before[k].version@));
                }
            }
        }
        out.insert(p, x);
        proof {
            all.take(k).to_multiset_ensures();
            assert(all.take(k).push(all[k]).to_multiset() =~= all.take(k).to_multiset().insert(
                all[k],
            ));
            k = k + 1;
        }
    }
    assert(all.take(k) =~= all);
    out
}

/// The settings after falling back from uv to pip when uv is missing.
pub open spec fn uv_fallback_spec(c: AppConfig, uv_installed: bool) -> AppConfig {
    AppConfig { use_uv_for_deps: c.use_uv_for_deps && uv_installed, ..c }
}

/// Turns installing dependencies with uv off when uv is not installed; the
/// answer says whether the setting changed and so must be saved.
pub fn apply_uv_fallback(config: &mut AppConfig, uv_installed: bool) -> (changed: bool)
    ensures
        *final(config) == uv_fallback_spec(*old(config), uv_installed),
        changed == (old(config).use_uv_for_deps && !uv_installed),
{
    if config.use_uv_for_deps && !uv_installed {
        config.use_uv_for_deps = false;
        true
    } else {
        false
    }
}

pub open spec fn uv_missing_message() -> Seq<char> {
    "uv 组件未安装，无法启用 uv 安装依赖"@
}

/// Turning uv on is refused while uv is not installed.
pub fn check_use_uv_for_deps(use_uv_for_deps: bool, uv_installed: bool) -> (r: Result<(), AppError>)
    ensures
        r is Err <==> (use_uv_for_deps && !uv_installed),
        r matches Err(e) ==> e@ == (ErrorKind::Other, detail_payload(uv_missing_message())),
{
    if use_uv_for_deps && !uv_installed {
        Err(AppError::other("uv 组件未安装，无法启用 uv 安装依赖"))
    } else {
        Ok(())
    }
}

/// The address probed before a PyPI mirror is saved.
pub fn pypi_mirror_check_url(pypi_mirror: &str) -> (r: String)
    ensures
        r@ == default_index_spec(pypi_mirror@) + "/"@,
{
    let n = normalize_default_index(pypi_mirror);
    concat_str(n.as_str(), "/")
}

/// The mirror value saved: empty for a blank input, else its simple index.
pub fn pypi_mirror_to_save(pypi_mirror: &str) -> (r: String)
    ensures
        r@ == (if trim(pypi_mirror@).len() == 0 {
            Seq::<char>::empty()
        } else {
            default_index_spec(pypi_mirror@)
        }),
{
    let t = trim_vec(&chars_of(pypi_mirror));
    if t.len() == 0 {
        let e = String::new();
        proof {
            reveal_strlit("");
        }
        e
    } else {
        normalize_default_index(pypi_mirror)
    }
}

pub open spec fn proxy_unreachable_message() -> Seq<char> {
    "代理配置错误，无法连接 cloudflare.com 或 baidu.com"@
}

/// The verdict on a proxy about to be saved: a configured proxy must reach
/// cloudflare.com or baidu.com.
pub fn proxy_check_verdict(url_empty: bool, cloudflare_ok: bool, baidu_ok: bool) -> (r: Result<(), AppError>)
    ensures
        r is Err <==> (!url_empty && !cloudflare_ok && !baidu_ok),
        r matches Err(e) ==> e@ == (ErrorKind::Network, detail_payload(proxy_unreachable_message())),
{
    if !url_empty && !cloudflare_ok && !baidu_ok {
        Err(AppError::network("代理配置错误，无法连接 cloudflare.com 或 baidu.com"))
    } else {
        Ok(())
    }
}

/// The component an id names, or the error for an unknown one.
pub fn component_id_or_error(component_id: &str) -> (r: Result<ComponentId, AppError>)
    ensures
        from_str_id_spec(component_id@) matches Some(id) ==> r == Ok::<ComponentId, AppError>(id),
        from_str_id_spec(component_id@) is None ==> (r matches Err(e) && e@ == (
            ErrorKind::Other,
            detail_payload("Unknown component: "@ + component_id@),
        )),
{
    match ComponentId::from_str_id(component_id) {
        Some(id) => Ok(id),
        None => {
            let m = concat_str("Unknown component: ", component_id);
            Err(AppError::other(m.as_str()))
        },
    }
}

/// The port of a running instance, or the error for one that is not running.
pub fn instance_port_or_error(port: Option<u16>) -> (r: Result<u16, AppError>)
    ensures
        port matches Some(p) ==> r == Ok::<u16, AppError>(p),
        port is None ==> (r matches Err(e) && e@ == (ErrorKind::InstanceNotRunning, Seq::<(Seq<char>, Seq<char>)>::empty())),
{
    match port {
        Some(p) => Ok(p),
        None => Err(AppError::instance_not_running()),
    }
}

/// Rebuilding the manifest is refused while any instance is active.
pub fn ensure_no_active_instances(active_ids: &Vec<String>) -> (r: Result<(), AppError>)
    ensures
        r is Ok <==> active_ids@.len() == 0,
        r matches Err(e) ==> e@.0 == ErrorKind::InstanceRunning,
{
    if active_ids.len() == 0 {
        Ok(())
    } else {
        Err(AppError::instance_running())
    }
}

/// What a lock check is asked to inspect.
#[derive(Debug, Clone, Copy, PartialEq, Eq, Structural)]
pub enum LockCheckTarget {
    InstanceData,
    BackupCreate,
    BackupRestore,
    InstanceUpgrade,
}

/// Whose data a lock check inspects: an instance named directly, or the
/// instance recorded in a backup archive.
#[derive(Debug)]
pub enum LockCheckSubject {
    Instance(String),
    Backup(String),
}

pub open spec fn missing_lock_arg(e: AppError, arg: Seq<char>) -> bool {
    e@ == (ErrorKind::Other, detail_payload("check_lock 缺少 "@ + arg))
}

/// The subject of a lock check: a backup restore needs the backup path, every
/// other target the instance id.
pub fn lock_check_subject(
    target: LockCheckTarget,
    instance_id: Option<&str>,
    backup_path: Option<&str>,
) -> (r: Result<LockCheckSubject, AppError>)
    ensures
        target == LockCheckTarget::BackupRestore ==> match backup_path {
            Some(p) => r matches Ok(LockCheckSubject::Backup(s)) && s@ == p@,
            None => r matches Err(e) && missing_lock_arg(e, "backup_path"@),
        },
        target != LockCheckTarget::BackupRestore ==> match instance_id {
            Some(i) => r matches Ok(LockCheckSubject::Instance(s)) && s@ == i@,
            None => r matches Err(e) && missing_lock_arg(e, "instance_id"@),
        },
{
    match target {
        LockCheckTarget::BackupRestore => match backup_path {
            Some(p) => Ok(LockCheckSubject::Backup(str_to_string(p))),
            None => {
                let m = concat_str("check_lock 缺少 ", "backup_path");
                Err(AppError::other(m.as_str()))
            },
        },
        _ => match instance_id {
            Some(i) => Ok(LockCheckSubject::Instance(str_to_string(i))),
            None => {
                let m = concat_str("check_lock 缺少 ", "instance_id");
                Err(AppError::other(m.as_str()))
            },
        },
    }
}

/// This program's version (the package version).
pub fn get_version() -> (r: String)
    ensures
        r@ == "0.1.0"@,
{
    proof {
        reveal_strlit("0.1.0");
    }
    str_to_string("0.1.0")
}

/// The systemd unit that runs this manager.
pub const SYSTEMD_UNIT: &'static str = "astrbot-launcher";

/// Whether the unit file is installed and the unit enabled.
#[derive(Debug, Clone, Copy, PartialEq, Eq, Structural)]
pub struct SystemdStatus {
    pub installed: bool,
    pub enabled: bool,
}

/// Where the unit file of the manager is installed.
pub fn systemd_unit_path() -> (r: String)
    ensures
        r@ == "/etc/systemd/system/"@ + SYSTEMD_UNIT@ + ".service"@,
{
    let a = concat_str("/etc/systemd/system/", SYSTEMD_UNIT);
    concat_str(a.as_str(), ".service")
}

/// The `systemctl` verb that turns the unit on or off.
pub fn systemctl_toggle_action(enable: bool) -> (r: &'static str)
    ensures
        r@ == (if enable { "enable"@ } else { "disable"@ }),
{
    if enable {
        "enable"
    } else {
        "disable"
    }
}

/// Everything the front end shows at once.
#[derive(Debug)]
pub struct AppSnapshot {
    pub instances: Vec<InstanceStatus>,
    pub versions: Vec<InstalledVersion>,
    pub backups: Vec<BackupInfo>,
    pub components: ComponentsSnapshot,
    pub config: AppConfig,
}

/// Assembles the snapshot: the settings as the uv fallback leaves them, the
/// installed versions in listing order, the rest as given. The answer's
/// second part says whether the fallback changed the settings.
pub fn build_app_snapshot(
    instances: Vec<InstanceStatus>,
    versions: Vec<InstalledVersion>,
    backups: Vec<BackupInfo>,
    components: ComponentsSnapshot,
    config: AppConfig,
    uv_installed: bool,
) -> (r: (AppSnapshot, bool))
    ensures
        r.0.instances == instances,
        r.0.backups == backups,
        r.0.components == components,
        r.0.config == uv_fallback_spec(config, uv_installed),
        r.1 == (config.use_uv_for_deps && !uv_installed),
        versions_in_listing_order(r.0.versions@),
        r.0.versions@.to_multiset() == versions@.to_multiset(),
{
    let mut config = config;
    let changed = apply_uv_fallback(&mut config, uv_installed);
    let versions = sort_installed_versions(versions);
    (AppSnapshot { instances, versions, backups, components, config }, changed)
}

} // verus!
