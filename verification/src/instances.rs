//! The status of each instance as listed to the user.

use vstd::prelude::*;
use vstd::string::*;

use crate::assoc::{distinct_keys, key_view, map_of, table_find};
use crate::backup::{lemma_insert_multiset, seq_lt, str_less};
use crate::manifest::{host_spec, normalize_instance_host, AppManifest, InstanceConfig};
use crate::process_state::{InstanceRuntimeInfo, InstanceState};
use crate::text::str_to_string;

verus! {

/// One instance as listed: its configuration and its runtime state.
#[derive(Debug)]
pub struct InstanceStatus {
    pub id: String,
    pub name: String,
    pub state: InstanceState,
    pub port: u16,
    pub version: String,
    pub dashboard_enabled: bool,
    pub pid_tracker_not_available: bool,
    pub configured_host: String,
    pub configured_port: u16,
}

/// The fields of a status, strings by their characters.
pub type StatusView = (Seq<char>, Seq<char>, InstanceState, u16, Seq<char>, bool, bool, Seq<char>, u16);

pub open spec fn status_view(s: InstanceStatus) -> StatusView {
    (
        s.id@,
        s.name@,
        s.state,
        s.port,
        s.version@,
        s.dashboard_enabled,
        s.pid_tracker_not_available,
        s.configured_host@,
        s.configured_port,
    )
}

/// The status of instance `id`: a live or stopping process supplies the port
/// and the dashboard flag, otherwise the configured port and what the
/// instance's own configuration file says of the dashboard.
pub open spec fn status_spec(
    id: Seq<char>,
    inst: InstanceConfig,
    info: Option<InstanceRuntimeInfo>,
    disk_dashboard: bool,
    is_windows: bool,
    default_host: Seq<char>,
) -> StatusView {
    let (state, port, dashboard) = match info {
        Some(InstanceRuntimeInfo::Starting) => (InstanceState::Starting, inst.port, disk_dashboard),
        Some(InstanceRuntimeInfo::Live { port, dashboard_enabled }) => (
            InstanceState::Running,
            port,
            dashboard_enabled,
        ),
        Some(InstanceRuntimeInfo::Stopping { port, dashboard_enabled }) => (
            InstanceState::Stopping,
            port,
            dashboard_enabled,
        ),
        None => (InstanceState::Stopped, inst.port, disk_dashboard),
    };
    (
        id,
        inst.name@,
        state,
        port,
        inst.version@,
        dashboard,
        !dashboard && is_windows,
        host_spec(inst.host@, default_host),
        inst.port,
    )
}

/// The runtime information recorded for `id`, if any.
pub open spec fn info_of(runtime: Seq<(Seq<char>, InstanceRuntimeInfo)>, id: Seq<char>) -> Option<
    InstanceRuntimeInfo,
> {
    if map_of(runtime).dom().contains(id) {
        Some(map_of(runtime)[id])
    } else {
        None
    }
}

/// The status of one instance.
pub fn instance_status(
    id: &str,
    inst: &InstanceConfig,
    info: Option<InstanceRuntimeInfo>,
    disk_dashboard: bool,
    is_windows: bool,
    default_host: &str,
) -> (r: InstanceStatus)
    ensures
        status_view(r) == status_spec(id@, *inst, info, disk_dashboard, is_windows, default_host@),
{
    let (state, port, dashboard_enabled) = match info {
        Some(InstanceRuntimeInfo::Starting) => (InstanceState::Starting, inst.port, disk_dashboard),
        Some(InstanceRuntimeInfo::Live { port, dashboard_enabled }) => (
            InstanceState::Running,
            port,
            dashboard_enabled,
        ),
        Some(InstanceRuntimeInfo::Stopping { port, dashboard_enabled }) => (
            InstanceState::Stopping,
            port,
            dashboard_enabled,
        ),
        None => (InstanceState::Stopped, inst.port, disk_dashboard),
    };
    InstanceStatus {
        id: str_to_string(id),
        name: inst.name.clone(),
        state,
        port,
        version: inst.version.clone(),
        dashboard_enabled,
        pid_tracker_not_available: !dashboard_enabled && is_windows,
        configured_host: normalize_instance_host(inst.host.as_str(), default_host),
        configured_port: inst.port,
    }
}

/// The expected statuses, in manifest order.
pub open spec fn expected_statuses(
    entries: Seq<(Seq<char>, InstanceConfig)>,
    runtime: Seq<(Seq<char>, InstanceRuntimeInfo)>,
    disk_dashboard: Seq<bool>,
    is_windows: bool,
    default_host: Seq<char>,
) -> Seq<StatusView> {
    Seq::new(
        entries.len(),
        |j: int|
            status_spec(
                entries[j].0,
                entries[j].1,
                info_of(runtime, entries[j].0),
                disk_dashboard[j],
                is_windows,
                default_host,
            ),
    )
}

pub open spec fn views_of(v: Seq<InstanceStatus>) -> Seq<StatusView> {
    v.map_values(|s: InstanceStatus| status_view(s))
}

/// Ids never descend along the list.
pub open spec fn ids_ascending(v: Seq<InstanceStatus>) -> bool {
    forall|i: int, j: int| 0 <= i < j < v.len() ==> !seq_lt(#[trigger] v[j].id@, #[trigger] v[i].id@)
}

fn sort_by_id(v: Vec<InstanceStatus>) -> (r: Vec<InstanceStatus>)
    ensures
        ids_ascending(r@),
        views_of(r@).to_multiset() == views_of(v@).to_multiset(),
{
    broadcast use vstd::seq_lib::group_to_multiset_ensures;

    let ghost all = views_of(v@);
    let ghost orig = v@;
    let mut rest = v;
    let mut out: Vec<InstanceStatus> = Vec::new();
    let ghost mut k: int = 0;
    while rest.len() > 0
        invariant
            0 <= k <= orig.len(),
            all == views_of(orig),
            rest@ == orig.subrange(k, orig.len() as int),
            ids_ascending(out@),
            views_of(out@).to_multiset() == all.take(k).to_multiset(),
        decreases rest.len(),
    {
        let ghost rb = rest@;
        let x = rest.remove(0);
        proof {
            assert(x == rb[0]);
            assert(orig.subrange(k, orig.len() as int)[0] == orig[k]);
            assert(rest@ =~= orig.subrange(k + 1, orig.len() as int));
            assert(all.take(k + 1) =~= all.take(k).push(status_view(x)));
        }
        let mut p: usize = 0;
        while p < out.len() && !str_less(x.id.as_str(), out[p].id.as_str())
            invariant
                p <= out@.len(),
                forall|q: int| 0 <= q < p ==> !seq_lt(x.id@, #[trigger] out@[q].id@),
            decreases out.len() - p,
        {
            p = p + 1;
        }
        let ghost before = out@;
        proof {
            lemma_insert_multiset(views_of(before), p as int, status_view(x));
            assert(views_of(before.insert(p as int, x)) =~= views_of(before).insert(
                p as int,
                status_view(x),
            ));
            assert forall|i: int, j: int|
                0 <= i < j < before.len() + 1 implies !seq_lt(
                #[trigger] before.insert(p as int, x)[j].id@,
                #[trigger] before.insert(p as int, x)[i].id@,
            ) by {
                let t = before.insert(p as int, x);
                let xi = x.id@;
                if i < p && j == p {
                    // x does not sort before an entry it was placed after.
                    assert(t[i] == before[i]);
                } else if i == p && j > p {
                    // x sorts before the entry at p, which does not sort after the one at j.
                    let pi = before[p as int].id@;
                    let ji = before[j - 1].id@;
                    assert(seq_lt(xi, pi));
                    crate::backup::lemma_seq_lt_trichotomy(pi, ji);
                    crate::backup::lemma_seq_lt_trichotomy(ji, xi);
                    if seq_lt(ji, xi) {
                        if j - 1 > p {
                            assert(!seq_lt(ji, pi));
                            crate::backup::lemma_seq_lt_transitive(ji, xi, pi);
                        }
                    }
                } else if i < p && j > p {
                    assert(t[i] == before[i] && t[j] == before[j - 1]);
                } else if i > p {
                    assert(t[i] == before[i - 1] && t[j] == before[j - 1]);
                } else {
                    assert(t[i] == before[i] && t[j] == before[j]);
                }
            }
        }
        out.insert(p, x);
        proof {
            all.take(k).to_multiset_ensures();
            assert(all.take(k).push(status_view(x)).to_multiset() =~= all.take(k).to_multiset().insert(
                status_view(x),
            ));
            k = k + 1;
        }
    }
    assert(all.take(k) =~= all);
    out
}

/// Every instance of the manifest with its status, ordered by id.
/// `runtime_info` holds what the process state reports per id, and
/// `disk_dashboard[j]` whether the configuration file of the j-th manifest
/// instance enables the dashboard.
pub fn list_instances(
    manifest: &AppManifest,
    runtime_info: &Vec<(String, InstanceRuntimeInfo)>,
    disk_dashboard: &Vec<bool>,
    is_windows: bool,
    default_host: &str,
) -> (r: Vec<InstanceStatus>)
    requires
        distinct_keys(key_view(runtime_info@)),
        disk_dashboard@.len() == manifest.instances@.len(),
    ensures
        ids_ascending(r@),
        views_of(r@).to_multiset() == expected_statuses(
            key_view(manifest.instances@),
            key_view(runtime_info@),
            disk_dashboard@,
            is_windows,
            default_host@,
        ).to_multiset(),
{
    let ghost entries = key_view(manifest.instances@);
    let ghost expected = expected_statuses(
        entries,
        key_view(runtime_info@),
        disk_dashboard@,
        is_windows,
        default_host@,
    );
    let mut built: Vec<InstanceStatus> = Vec::new();
    let mut j: usize = 0;
    while j < manifest.instances.len()
        invariant
            j <= manifest.instances@.len(),
            entries == key_view(manifest.instances@),
            disk_dashboard@.len() == manifest.instances@.len(),
            distinct_keys(key_view(runtime_info@)),
            expected == expected_statuses(
                entries,
                key_view(runtime_info@),
                disk_dashboard@,
                is_windows,
                default_host@,
            ),
            views_of(built@) == expected.take(j as int),
        decreases manifest.instances.len() - j,
    {
        let id = &manifest.instances[j].0;
        let info = match table_find(runtime_info, id.as_str()) {
            Some(i) => Some(runtime_info[i].1),
            None => None,
        };
        proof {
            assert(entries[j as int] == (manifest.instances@[j as int].0@, manifest.instances@[j as int].1));
        }
        let s = instance_status(
            id.as_str(),
            &manifest.instances[j].1,
            info,
            disk_dashboard[j],
            is_windows,
            default_host,
        );
        let ghost bb = built@;
        built.push(s);
        proof {
            assert(views_of(built@) =~= views_of(bb).push(status_view(s)));
            assert(expected.take(j + 1) =~= expected.take(j as int).push(expected[j as int]));
        }
        j = j + 1;
    }
    proof {
        assert(expected.take(j as int) =~= expected);
    }
    sort_by_id(built)
}

/// What reading an instance's `data/cmd_config.json` gave.
pub enum CmdConfigRead {
    /// The file does not exist.
    Missing,
    /// The file exists but could not be read.
    Unreadable,
    /// The file was read but is not a valid configuration.
    Unparsable,
    /// The configuration's `dashboard.enable`, when it is set.
    Parsed(Option<bool>),
}

/// Whether an instance serves its dashboard: never for an invalid id; by
/// default when it has no configuration file; otherwise only when the file
/// says `dashboard.enable = true` (a file that cannot be read or parsed
/// counts as disabled).
pub open spec fn dashboard_enabled_spec(id_valid: bool, read: CmdConfigRead) -> bool {
    id_valid && match read {
        CmdConfigRead::Missing => true,
        CmdConfigRead::Unreadable => false,
        CmdConfigRead::Unparsable => false,
        CmdConfigRead::Parsed(enable) => enable == Some(true),
    }
}

pub fn dashboard_enabled(instance_id: &str, read: CmdConfigRead) -> (r: bool)
    ensures
        r == dashboard_enabled_spec(crate::validation::uuid_accepts(instance_id@), read),
{
    if crate::validation::validate_instance_id(instance_id).is_err() {
        return false;
    }
    match read {
        CmdConfigRead::Missing => true,
        CmdConfigRead::Unreadable => false,
        CmdConfigRead::Unparsable => false,
        CmdConfigRead::Parsed(enable) => match enable {
            Some(b) => b,
            None => false,
        },
    }
}

/// The configuration text without a leading byte-order mark (all of them,
/// as `trim_start_matches` removes).
pub fn strip_bom(content: &str) -> (r: String)
    ensures
        r@ == crate::text::trim_start_char(content@, '\u{feff}'),
{
    let v = crate::text::trim_start_char_vec(&crate::text::chars_of(content), '\u{feff}');
    crate::text::string_from_chars(v.as_slice())
}

} // verus!
