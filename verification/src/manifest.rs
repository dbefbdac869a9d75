//! The manifest of instances and installed versions, and the settings record
//! inherited from the legacy single-file configuration.

use vstd::prelude::*;
use vstd::string::*;

use crate::archive_path::strs_view;
use crate::assoc::{
    distinct_keys, key_view, map_of, table_find, table_insert, table_push_new, table_take,
};
use crate::config::AppConfig;
use crate::error::AppError;
use crate::text::{
    chars_of, ends_with, eq_vec, starts_with, string_from_chars, str_to_string, subvec, trim,
    trim_str, trim_vec,
};

verus! {

#[derive(Debug)]
pub struct InstanceConfig {
    pub name: String,
    pub version: String,
    pub host: String,
    pub port: u16,
    pub created_at: String,
}

#[derive(Debug)]
pub struct InstalledVersion {
    pub version: String,
    pub zip_path: String,
}

pub fn copy_instance(c: &InstanceConfig) -> (r: InstanceConfig)
    ensures
        r == *c,
{
    InstanceConfig {
        name: c.name.clone(),
        version: c.version.clone(),
        host: c.host.clone(),
        port: c.port,
        created_at: c.created_at.clone(),
    }
}

pub fn copy_installed(v: &InstalledVersion) -> (r: InstalledVersion)
    ensures
        r == *v,
{
    InstalledVersion { version: v.version.clone(), zip_path: v.zip_path.clone() }
}

/// Instances keyed by id (each id once), installed versions, and the ids of
/// instances whose running state is remembered.
///
/// The instance map is kept as a list of pairs with distinct keys: vstd states what
/// `HashMap` lookups return only for key types it knows to hash and compare
/// by value (integers, `bool`), not for `String`, so the contracts here are
/// stated over this list and its view as a map.
#[derive(Debug)]
pub struct AppManifest {
    pub instances: Vec<(String, InstanceConfig)>,
    pub installed_versions: Vec<InstalledVersion>,
    pub tracked_instances_snapshot: Vec<String>,
}

pub open spec fn is_installed(v: Seq<InstalledVersion>, version: Seq<char>) -> bool {
    exists|i: int| 0 <= i < v.len() && v[i].version@ == version
}

impl AppManifest {
    /// The instances by id.
    pub open spec fn instances_map(&self) -> Map<Seq<char>, InstanceConfig> {
        map_of(key_view(self.instances@))
    }

    pub open spec fn wf(&self) -> bool {
        distinct_keys(key_view(self.instances@))
    }

    pub fn new() -> (r: Self)
        ensures
            r.wf(),
            r.instances_map() == Map::<Seq<char>, InstanceConfig>::empty(),
            r.installed_versions@.len() == 0,
            r.tracked_instances_snapshot@.len() == 0,
    {
        let r = AppManifest {
            instances: Vec::new(),
            installed_versions: Vec::new(),
            tracked_instances_snapshot: Vec::new(),
        };
        assert(key_view(r.instances@) =~= Seq::<(Seq<char>, InstanceConfig)>::empty());
        r
    }

    /// The instance with this id.
    pub fn instance(&self, id: &str) -> (r: Option<&InstanceConfig>)
        requires
            self.wf(),
        ensures
            match r {
                Some(c) => self.instances_map().dom().contains(id@) && self.instances_map()[id@]
                    == *c,
                None => !self.instances_map().dom().contains(id@),
            },
    {
        match table_find(&self.instances, id) {
            Some(i) => Some(&self.instances[i].1),
            None => None,
        }
    }

    /// The instance ids with their configurations, each id once.
    pub fn instance_entries(&self) -> (r: &Vec<(String, InstanceConfig)>)
        requires
            self.wf(),
        ensures
            distinct_keys(key_view(r@)),
            map_of(key_view(r@)) == self.instances_map(),
    {
        &self.instances
    }

    /// Adds or replaces an instance.
    pub fn insert_instance(&mut self, id: &str, config: InstanceConfig)
        requires
            old(self).wf(),
        ensures
            final(self).wf(),
            final(self).instances_map() == old(self).instances_map().insert(id@, config),
            final(self).installed_versions == old(self).installed_versions,
            final(self).tracked_instances_snapshot == old(self).tracked_instances_snapshot,
    {
        table_insert(&mut self.instances, id, config);
    }

    /// Removes an instance; unknown ids are an error.
    pub fn remove_instance(&mut self, id: &str) -> (r: Result<InstanceConfig, AppError>)
        requires
            old(self).wf(),
        ensures
            final(self).wf(),
            final(self).installed_versions == old(self).installed_versions,
            final(self).tracked_instances_snapshot == old(self).tracked_instances_snapshot,
            match r {
                Ok(c) => old(self).instances_map().dom().contains(id@) && old(self).instances_map()[id@]
                    == c && final(self).instances_map() == old(self).instances_map().remove(id@),
                Err(e) => !old(self).instances_map().dom().contains(id@) && final(self).instances_map()
                    == old(self).instances_map() && e@.0 == crate::error::ErrorKind::InstanceNotFound
                    && e@.1 == seq![("id"@, id@)],
            },
    {
        match table_find(&self.instances, id) {
            Some(i) => {
                let (_, c) = table_take(&mut self.instances, i);
                Ok(c)
            },
            None => Err(AppError::instance_not_found(id)),
        }
    }

    /// The version must be installed.
    pub fn ensure_version_installed(&self, version: &str) -> (r: Result<(), AppError>)
        ensures
            r is Ok <==> is_installed(self.installed_versions@, version@),
            r matches Err(e) ==> e@.0 == crate::error::ErrorKind::VersionNotFound && e@.1 == seq![
                ("version"@, version@),
            ],
    {
        let mut i: usize = 0;
        while i < self.installed_versions.len()
            invariant
                i <= self.installed_versions@.len(),
                forall|j: int| 0 <= j < i ==> self.installed_versions@[j].version@ != version@,
            decreases self.installed_versions.len() - i,
        {
            if eq_vec(&chars_of(self.installed_versions[i].version.as_str()), &chars_of(version)) {
                return Ok(());
            }
            i = i + 1;
        }
        Err(AppError::version_not_found(version))
    }

    /// Applies the requested changes to an instance's configuration; a blank
    /// host means the default host. Unknown ids are an error.
    pub fn update_instance_config(
        &mut self,
        instance_id: &str,
        name: Option<&str>,
        version: Option<&str>,
        host: Option<&str>,
        port: Option<u16>,
        default_host: &str,
    ) -> (r: Result<(), AppError>)
        requires
            old(self).wf(),
        ensures
            final(self).wf(),
            final(self).installed_versions == old(self).installed_versions,
            final(self).tracked_instances_snapshot == old(self).tracked_instances_snapshot,
            r is Ok <==> old(self).instances_map().dom().contains(instance_id@),
            r is Ok ==> final(self).instances_map() == old(self).instances_map().insert(
                instance_id@,
                final(self).instances_map()[instance_id@],
            ) && updated_spec(
                old(self).instances_map()[instance_id@],
                final(self).instances_map()[instance_id@],
                opt_str_view(name),
                opt_str_view(version),
                opt_str_view(host),
                port,
                default_host@,
            ),
            r matches Err(e) ==> final(self).instances_map() == old(self).instances_map() && e@.0
                == crate::error::ErrorKind::InstanceNotFound && e@.1 == seq![("id"@, instance_id@)],
    {
        let i = match table_find(&self.instances, instance_id) {
            Some(i) => i,
            None => {
                return Err(AppError::instance_not_found(instance_id));
            },
        };
        let (key, mut c) = table_take(&mut self.instances, i);
        let ghost before = c;
        if let Some(n) = name {
            c.name = str_to_string(n);
        }
        if let Some(v) = version {
            c.version = str_to_string(v);
        }
        if let Some(h) = host {
            c.host = normalize_instance_host(h, default_host);
        }
        if let Some(p) = port {
            c.port = p;
        }
        assert(updated_spec(
            before,
            c,
            opt_str_view(name),
            opt_str_view(version),
            opt_str_view(host),
            port,
            default_host@,
        ));
        let ghost cv = c;
        table_push_new(&mut self.instances, key, c);
        assert(self.instances_map()[instance_id@] == cv);
        Ok(())
    }

    /// Records a downloaded version, replacing any record of the same version.
    pub fn register_version(&mut self, installed: InstalledVersion)
        ensures
            final(self).instances == old(self).instances,
            final(self).tracked_instances_snapshot == old(self).tracked_instances_snapshot,
            final(self).installed_versions@ == without_version(
                old(self).installed_versions@,
                installed.version@,
            ).push(installed),
    {
        let name = str_to_string(installed.version.as_str());
        self.retain_other_versions(&name);
        self.installed_versions.push(installed);
    }

    fn retain_other_versions(&mut self, version: &String)
        ensures
            final(self).instances == old(self).instances,
            final(self).tracked_instances_snapshot == old(self).tracked_instances_snapshot,
            final(self).installed_versions@ == without_version(
                old(self).installed_versions@,
                version@,
            ),
    {
        let ghost orig = self.installed_versions@;
        let mut kept: Vec<InstalledVersion> = Vec::new();
        let mut rest: Vec<InstalledVersion> = Vec::new();
        std::mem::swap(&mut rest, &mut self.installed_versions);
        let ghost mut i: int = 0;
        while rest.len() > 0
            invariant
                0 <= i <= orig.len(),
                rest@ == orig.subrange(i, orig.len() as int),
                kept@ == without_version(orig.take(i), version@),
                self.installed_versions@.len() == 0,
                self.instances == old(self).instances,
                self.tracked_instances_snapshot == old(self).tracked_instances_snapshot,
            decreases rest.len(),
        {
            let ghost before = rest@;
            let v = rest.remove(0);
            proof {
                assert(orig.subrange(i, orig.len() as int)[0] == orig[i]);
                assert(orig.take(i + 1).drop_last() =~= orig.take(i));
                assert(rest@ =~= orig.subrange(i + 1, orig.len() as int));
            }
            if !eq_vec(&chars_of(v.version.as_str()), &chars_of(version.as_str())) {
                kept.push(v);
            }
            proof {
                i = i + 1;
            }
        }
        assert(orig.take(i) =~= orig);
        self.installed_versions = kept;
    }

    /// Forgets a version; refused while an instance uses it.
    pub fn unregister_version(&mut self, version: &str) -> (r: Result<(), AppError>)
        requires
            old(self).wf(),
        ensures
            final(self).wf(),
            final(self).instances == old(self).instances,
            final(self).tracked_instances_snapshot == old(self).tracked_instances_snapshot,
            r is Ok <==> !exists|k: Seq<char>|
                old(self).instances_map().dom().contains(k) && old(self).instances_map()[k].version@
                    == version@,
            r is Ok ==> final(self).installed_versions@ == without_version(
                old(self).installed_versions@,
                version@,
            ),
            r matches Err(e) ==> final(self).installed_versions == old(self).installed_versions
                && e@.0 == crate::error::ErrorKind::VersionInUse && exists|k: Seq<char>|
                old(self).instances_map().dom().contains(k)
                    && old(self).instances_map()[k].version@ == version@ && e@.1 == seq![
                    ("version"@, version@),
                    ("instance"@, old(self).instances_map()[k].name@),
                ],
    {
        let mut i: usize = 0;
        while i < self.instances.len()
            invariant
                i <= self.instances@.len(),
                self.wf(),
                forall|j: int| 0 <= j < i ==> self.instances@[j].1.version@ != version@,
            decreases self.instances.len() - i,
        {
            if eq_vec(&chars_of(self.instances[i].1.version.as_str()), &chars_of(version)) {
                proof {
                    assert(key_view(self.instances@)[i as int] == (
                        self.instances@[i as int].0@,
                        self.instances@[i as int].1,
                    ));
                    crate::assoc::lemma_map_of_index(key_view(self.instances@), i as int);
                    let k = self.instances@[i as int].0@;
                    assert(self.instances_map().dom().contains(k) && self.instances_map()[k].version@
                        == version@);
                }
                return Err(AppError::version_in_use(version, self.instances[i].1.name.as_str()));
            }
            i = i + 1;
        }
        proof {
            assert forall|k: Seq<char>|
                self.instances_map().dom().contains(k) implies self.instances_map()[k].version@
                != version@ by {
                crate::assoc::lemma_map_of_dom(key_view(self.instances@), k);
                let j = choose|j: int| 0 <= j < key_view(self.instances@).len() && key_view(self.instances@)[j].0 == k;
                assert(key_view(self.instances@)[j] == (self.instances@[j].0@, self.instances@[j].1));
                crate::assoc::lemma_map_of_index(key_view(self.instances@), j);
            }
        }
        let name = str_to_string(version);
        self.retain_other_versions(&name);
        Ok(())
    }

    /// After a restore: the instance records the backup's version.
    pub fn apply_restored_version(&mut self, instance_id: &str, version: &str)
        requires
            old(self).wf(),
        ensures
            final(self).wf(),
            final(self).installed_versions == old(self).installed_versions,
            final(self).tracked_instances_snapshot == old(self).tracked_instances_snapshot,
            old(self).instances_map().dom().contains(instance_id@) ==> final(self).instances_map()
                == old(self).instances_map().insert(
                instance_id@,
                InstanceConfig { version: final(self).instances_map()[instance_id@].version, ..old(self).instances_map()[instance_id@] },
            ) && final(self).instances_map()[instance_id@].version@ == version@,
            !old(self).instances_map().dom().contains(instance_id@) ==> final(self).instances_map()
                == old(self).instances_map(),
    {
        match table_find(&self.instances, instance_id) {
            Some(i) => {
                let (key, mut c) = table_take(&mut self.instances, i);
                c.version = str_to_string(version);
                table_push_new(&mut self.instances, key, c);
            },
            None => {},
        }
    }
}

pub open spec fn opt_str_view(o: Option<&str>) -> Option<Seq<char>> {
    match o {
        Some(s) => Some(s@),
        None => None,
    }
}

/// The host an instance listens on: trimmed, or the default host when blank.
pub open spec fn host_spec(host: Seq<char>, default_host: Seq<char>) -> Seq<char> {
    if trim(host).len() == 0 {
        default_host
    } else {
        trim(host)
    }
}

pub fn normalize_instance_host(host: &str, default_host: &str) -> (r: String)
    ensures
        r@ == host_spec(host@, default_host@),
{
    let t = trim_str(host);
    if t.unicode_len() == 0 {
        str_to_string(default_host)
    } else {
        t
    }
}

/// `n` is `c` with the requested fields replaced (the host normalized).
pub open spec fn updated_spec(
    c: InstanceConfig,
    n: InstanceConfig,
    name: Option<Seq<char>>,
    version: Option<Seq<char>>,
    host: Option<Seq<char>>,
    port: Option<u16>,
    default_host: Seq<char>,
) -> bool {
    &&& n.name@ == match name {
        Some(x) => x,
        None => c.name@,
    }
    &&& n.version@ == match version {
        Some(x) => x,
        None => c.version@,
    }
    &&& n.host@ == match host {
        Some(x) => host_spec(x, default_host),
        None => c.host@,
    }
    &&& n.port == match port {
        Some(p) => p,
        None => c.port,
    }
    &&& n.created_at == c.created_at
}

/// The version records other than those of `version`, in order.
pub open spec fn without_version(v: Seq<InstalledVersion>, version: Seq<char>) -> Seq<
    InstalledVersion,
>
    decreases v.len(),
{
    if v.len() == 0 {
        Seq::empty()
    } else {
        let r = without_version(v.drop_last(), version);
        if v.last().version@ == version {
            r
        } else {
            r.push(v.last())
        }
    }
}

/// `t` extended by the version records of `src` whose version it lacks
/// (checked against the growing list).
pub open spec fn merge_versions(t: Seq<InstalledVersion>, src: Seq<InstalledVersion>) -> Seq<
    InstalledVersion,
>
    decreases src.len(),
{
    if src.len() == 0 {
        t
    } else {
        let r = merge_versions(t, src.drop_last());
        if is_installed(r, src.last().version@) {
            r
        } else {
            r.push(src.last())
        }
    }
}

/// `t` extended by the ids of `src` it lacks (checked against the growing list).
pub open spec fn merge_ids(t: Seq<Seq<char>>, src: Seq<Seq<char>>) -> Seq<Seq<char>>
    decreases src.len(),
{
    if src.len() == 0 {
        t
    } else {
        let r = merge_ids(t, src.drop_last());
        if r.contains(src.last()) {
            r
        } else {
            r.push(src.last())
        }
    }
}

fn has_version(v: &Vec<InstalledVersion>, version: &str) -> (b: bool)
    ensures
        b == is_installed(v@, version@),
{
    let mut i: usize = 0;
    while i < v.len()
        invariant
            i <= v@.len(),
            forall|j: int| 0 <= j < i ==> v@[j].version@ != version@,
        decreases v.len() - i,
    {
        if eq_vec(&chars_of(v[i].version.as_str()), &chars_of(version)) {
            return true;
        }
        i = i + 1;
    }
    false
}

fn has_id(v: &Vec<String>, id: &str) -> (b: bool)
    ensures
        b == strs_view(v@).contains(id@),
{
    let mut i: usize = 0;
    while i < v.len()
        invariant
            i <= v@.len(),
            forall|j: int| 0 <= j < i ==> v@[j]@ != id@,
        decreases v.len() - i,
    {
        if eq_vec(&chars_of(v[i].as_str()), &chars_of(id)) {
            assert(strs_view(v@)[i as int] == id@);
            return true;
        }
        i = i + 1;
    }
    assert forall|j: int| 0 <= j < strs_view(v@).len() implies strs_view(v@)[j] != id@ by {
        assert(strs_view(v@)[j] == v@[j]@);
    }
    false
}

/// Merge manifest data from `source` into `target`; what `target` already
/// holds keeps priority.
pub fn merge_manifest(target: &mut AppManifest, source: &AppManifest)
    requires
        old(target).wf(),
        source.wf(),
    ensures
        final(target).wf(),
        final(target).instances_map() == source.instances_map().union_prefer_right(
            old(target).instances_map(),
        ),
        final(target).installed_versions@ == merge_versions(
            old(target).installed_versions@,
            source.installed_versions@,
        ),
        strs_view(final(target).tracked_instances_snapshot@) == merge_ids(
            strs_view(old(target).tracked_instances_snapshot@),
            strs_view(source.tracked_instances_snapshot@),
        ),
{
    let ghost t0 = target.instances_map();
    let ghost sv = key_view(source.instances@);
    let mut i: usize = 0;
    while i < source.instances.len()
        invariant
            i <= source.instances@.len(),
            source.wf(),
            sv == key_view(source.instances@),
            target.wf(),
            target.instances_map() == map_of(sv.take(i as int)).union_prefer_right(t0),
            target.installed_versions == old(target).installed_versions,
            target.tracked_instances_snapshot == old(target).tracked_instances_snapshot,
        decreases source.instances.len() - i,
    {
        let ghost before = target.instances_map();
        let (id, inst) = (&source.instances[i].0, &source.instances[i].1);
        proof {
            assert(sv[i as int] == (id@, *inst));
            assert(sv.take(i as int + 1).drop_last() =~= sv.take(i as int));
            assert(sv.take(i as int + 1).last() == (id@, *inst));
            crate::assoc::lemma_distinct_drop_last(sv.take(i as int + 1));
            crate::assoc::lemma_map_of_dom(sv.take(i as int), id@);
        }
        match table_find(&target.instances, id.as_str()) {
            Some(_) => {
                assert(target.instances_map() =~= map_of(sv.take(i as int + 1)).union_prefer_right(
                    t0,
                ));
            },
            None => {
                table_push_new(&mut target.instances, id.clone(), copy_instance(inst));
                assert(target.instances_map() =~= map_of(sv.take(i as int + 1)).union_prefer_right(
                    t0,
                ));
            },
        }
        i = i + 1;
    }
    assert(sv.take(i as int) =~= sv);
    let ghost vsrc = source.installed_versions@;
    let ghost v0 = target.installed_versions@;
    let mut j: usize = 0;
    while j < source.installed_versions.len()
        invariant
            j <= source.installed_versions@.len(),
            vsrc == source.installed_versions@,
            target.installed_versions@ == merge_versions(v0, vsrc.take(j as int)),
            target.wf(),
            target.instances_map() == map_of(sv).union_prefer_right(t0),
            target.tracked_instances_snapshot == old(target).tracked_instances_snapshot,
        decreases source.installed_versions.len() - j,
    {
        assert(vsrc.take(j as int + 1).drop_last() =~= vsrc.take(j as int));
        let v = &source.installed_versions[j];
        if !has_version(&target.installed_versions, v.version.as_str()) {
            target.installed_versions.push(copy_installed(v));
        }
        j = j + 1;
    }
    assert(vsrc.take(j as int) =~= vsrc);
    let ghost tsrc = strs_view(source.tracked_instances_snapshot@);
    let ghost tr0 = strs_view(target.tracked_instances_snapshot@);
    let mut k: usize = 0;
    while k < source.tracked_instances_snapshot.len()
        invariant
            k <= source.tracked_instances_snapshot@.len(),
            tsrc == strs_view(source.tracked_instances_snapshot@),
            strs_view(target.tracked_instances_snapshot@) == merge_ids(tr0, tsrc.take(k as int)),
            target.wf(),
            target.instances_map() == map_of(sv).union_prefer_right(t0),
            target.installed_versions@ == merge_versions(v0, vsrc),
        decreases source.tracked_instances_snapshot.len() - k,
    {
        assert(tsrc.take(k as int + 1).drop_last() =~= tsrc.take(k as int));
        assert(tsrc[k as int] == source.tracked_instances_snapshot@[k as int]@);
        let id = &source.tracked_instances_snapshot[k];
        if !has_id(&target.tracked_instances_snapshot, id.as_str()) {
            let ghost before = strs_view(target.tracked_instances_snapshot@);
            target.tracked_instances_snapshot.push(id.clone());
            assert(strs_view(target.tracked_instances_snapshot@) =~= before.push(id@));
        }
        k = k + 1;
    }
    assert(tsrc.take(k as int) =~= tsrc);
}

/// Merging keeps every instance the target already had, unchanged, and
/// adds those only the source has.
pub proof fn law_merge_target_priority(
    target: Map<Seq<char>, InstanceConfig>,
    source: Map<Seq<char>, InstanceConfig>,
    k: Seq<char>,
)
    ensures
        target.dom().contains(k) ==> source.union_prefer_right(target).dom().contains(k)
            && source.union_prefer_right(target)[k] == target[k],
        (!target.dom().contains(k) && source.dom().contains(k)) ==> source.union_prefer_right(
            target,
        )[k] == source[k],
        source.union_prefer_right(target).dom().contains(k) <==> (target.dom().contains(k)
            || source.dom().contains(k)),
{
}

/// Merging a version list into itself changes nothing.
pub proof fn law_merge_versions_self(t: Seq<InstalledVersion>, k: int)
    requires
        0 <= k <= t.len(),
    ensures
        merge_versions(t, t.take(k)) == t,
    decreases k,
{
    if k > 0 {
        law_merge_versions_self(t, k - 1);
        assert(t.take(k).drop_last() =~= t.take(k - 1));
        assert(is_installed(t, t[k - 1].version@));
    }
}

/// Merging an id list into itself changes nothing.
pub proof fn law_merge_ids_self(t: Seq<Seq<char>>, k: int)
    requires
        0 <= k <= t.len(),
    ensures
        merge_ids(t, t.take(k)) == t,
    decreases k,
{
    if k > 0 {
        law_merge_ids_self(t, k - 1);
        assert(t.take(k).drop_last() =~= t.take(k - 1));
        assert(t[k - 1] == t.take(k).last());
    }
}

pub fn default_true() -> (b: bool)
    ensures
        b,
{
    true
}

/// The settings as stored before the manifest got its own record.
#[derive(Debug)]
pub struct LegacyAppConfig {
    pub mainland_acceleration: bool,
    pub instances: Vec<(String, InstanceConfig)>,
    pub installed_versions: Vec<InstalledVersion>,
    pub github_proxy: String,
    pub proxy_url: String,
    pub proxy_port: String,
    pub proxy_username: String,
    pub proxy_password: String,
    pub pypi_mirror: String,
    pub nodejs_mirror: String,
    pub npm_registry: String,
    pub use_uv_for_deps: bool,
    pub close_to_tray: bool,
    pub autostart_minimize_to_tray: bool,
    pub check_instance_update: bool,
    pub persist_instance_state: bool,
    pub ignore_external_path: bool,
    pub tracked_instances_snapshot: Vec<String>,
    pub theme_preference: String,
}

impl LegacyAppConfig {
    /// The settings part; the extension whitelist did not exist and is off.
    pub fn into_config(self) -> (r: AppConfig)
        ensures
            r.mainland_acceleration == self.mainland_acceleration,
            r.github_proxy == self.github_proxy,
            r.proxy_url == self.proxy_url,
            r.proxy_port == self.proxy_port,
            r.proxy_username == self.proxy_username,
            r.proxy_password == self.proxy_password,
            r.pypi_mirror == self.pypi_mirror,
            r.nodejs_mirror == self.nodejs_mirror,
            r.npm_registry == self.npm_registry,
            r.use_uv_for_deps == self.use_uv_for_deps,
            r.close_to_tray == self.close_to_tray,
            r.autostart_minimize_to_tray == self.autostart_minimize_to_tray,
            r.check_instance_update == self.check_instance_update,
            r.persist_instance_state == self.persist_instance_state,
            r.ignore_external_path == self.ignore_external_path,
            !r.lock_check_extension_whitelist,
            r.theme_preference == self.theme_preference,
    {
        AppConfig {
            mainland_acceleration: self.mainland_acceleration,
            github_proxy: self.github_proxy,
            proxy_url: self.proxy_url,
            proxy_port: self.proxy_port,
            proxy_username: self.proxy_username,
            proxy_password: self.proxy_password,
            pypi_mirror: self.pypi_mirror,
            nodejs_mirror: self.nodejs_mirror,
            npm_registry: self.npm_registry,
            use_uv_for_deps: self.use_uv_for_deps,
            close_to_tray: self.close_to_tray,
            autostart_minimize_to_tray: self.autostart_minimize_to_tray,
            check_instance_update: self.check_instance_update,
            persist_instance_state: self.persist_instance_state,
            ignore_external_path: self.ignore_external_path,
            lock_check_extension_whitelist: false,
            theme_preference: self.theme_preference,
        }
    }

    /// The manifest part.
    pub fn into_manifest(self) -> (r: AppManifest)
        ensures
            r.instances == self.instances,
            r.installed_versions == self.installed_versions,
            r.tracked_instances_snapshot == self.tracked_instances_snapshot,
    {
        AppManifest {
            instances: self.instances,
            installed_versions: self.installed_versions,
            tracked_instances_snapshot: self.tracked_instances_snapshot,
        }
    }
}

/// `Rev ` and the first eight characters of the id.
pub fn default_instance_name(instance_id: &str) -> (r: String)
    ensures
        r@ == "Rev "@ + instance_id@.take(
            if instance_id@.len() < 8 {
                instance_id@.len() as int
            } else {
                8
            },
        ),
{
    let cs = chars_of(instance_id);
    let n: usize = if cs.len() < 8 {
        cs.len()
    } else {
        8
    };
    let mut r = str_to_string("Rev ");
    r.append(string_from_chars(subvec(&cs, 0, n).as_slice()).as_str());
    assert(cs@.subrange(0, n as int) =~= instance_id@.take(n as int));
    r
}

/// The version label of a `project.version` value: trimmed, prefixed with
/// `v` unless it already starts with one; `None` when blank.
pub fn pyproject_version_label(raw: &str) -> (r: Option<String>)
    ensures
        trim(raw@).len() == 0 ==> r is None,
        trim(raw@).len() > 0 ==> (r matches Some(s) && s@ == (if trim(raw@)[0] == 'v' {
            trim(raw@)
        } else {
            "v"@ + trim(raw@)
        })),
{
    let t = trim_vec(&chars_of(raw));
    if t.len() == 0 {
        return None;
    }
    if t[0] == 'v' {
        Some(string_from_chars(t.as_slice()))
    } else {
        let mut r = str_to_string("v");
        r.append(string_from_chars(t.as_slice()).as_str());
        Some(r)
    }
}

/// A file in the versions directory records a version when it is `<version>.zip`.
pub fn installed_version_from_file(file_name: &str, path: &str) -> (r: Option<InstalledVersion>)
    ensures
        ends_with(file_name@, ".zip"@) ==> (r matches Some(v) && v.version@ == file_name@.take(
            file_name@.len() - 4,
        ) && v.zip_path@ == path@),
        !ends_with(file_name@, ".zip"@) ==> r is None,
{
    let cs = chars_of(file_name);
    let suffix = chars_of(".zip");
    proof {
        reveal_strlit(".zip");
    }
    if !crate::text::ends_with_vec(&cs, &suffix) {
        return None;
    }
    let stem = subvec(&cs, 0, cs.len() - 4);
    assert(cs@.subrange(0, cs@.len() - 4) =~= file_name@.take(file_name@.len() - 4));
    Some(
        InstalledVersion {
            version: string_from_chars(stem.as_slice()),
            zip_path: str_to_string(path),
        },
    )
}

/// A directory is taken for an instance when it holds a virtual environment
/// or recognizable core content.
pub fn looks_like_instance_dir(
    has_venv: bool,
    has_main_py: bool,
    has_data: bool,
    has_pyproject: bool,
    has_requirements: bool,
) -> (b: bool)
    ensures
        b == (has_venv || has_main_py || has_data || has_pyproject || has_requirements),
{
    has_venv || has_main_py || has_data || has_pyproject || has_requirements
}

} // verus!
