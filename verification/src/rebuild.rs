//! Rebuilding the manifest from what is found on disk: version archives in
//! the versions directory and instance directories with their `pyproject.toml`.

use vstd::prelude::*;
use vstd::string::*;

use crate::assoc::{distinct_keys, key_view, map_of, table_find};
use crate::manifest::{
    default_instance_name, installed_version_from_file, pyproject_version_label, AppManifest,
    InstalledVersion, InstanceConfig,
};
use crate::text::{ends_with, str_to_string, trim};
use crate::validation::{uuid_accepts, validate_instance_id};

verus! {

/// How many instances and versions a rebuild recorded.
#[derive(Debug, Clone, Copy, PartialEq, Eq, Structural)]
pub struct RebuildInstanceManifestResult {
    pub instances: usize,
    pub versions: usize,
}

/// A directory found under `instances/`: its name, whether it holds
/// recognizable instance content, and the text of `core/pyproject.toml` when
/// it could be read.
#[derive(Debug)]
pub struct ScannedInstanceDir {
    pub name: String,
    pub has_content: bool,
    pub pyproject: Option<String>,
}

/// The elements `f` keeps, mapped, in order.
pub open spec fn keep_some<A, B>(s: Seq<A>, f: spec_fn(A) -> Option<B>) -> Seq<B>
    decreases s.len(),
{
    if s.len() == 0 {
        Seq::empty()
    } else {
        let r = keep_some(s.drop_last(), f);
        match f(s.last()) {
            Some(b) => r.push(b),
            None => r,
        }
    }
}

proof fn lemma_keep_some_step<A, B>(s: Seq<A>, f: spec_fn(A) -> Option<B>, i: int)
    requires
        0 <= i < s.len(),
    ensures
        keep_some(s.take(i + 1), f) == match f(s[i]) {
            Some(b) => keep_some(s.take(i), f).push(b),
            None => keep_some(s.take(i), f),
        },
{
    assert(s.take(i + 1).drop_last() =~= s.take(i));
}

/// `project.version` of a `pyproject.toml` text, when the text parses and
/// the value is a string.
pub uninterp spec fn toml_project_version(content: Seq<char>) -> Option<Seq<char>>;

/// Parses the text with `toml::from_str::<toml::Value>` and reads
/// `project.version` with `Value::get` and `Value::as_str`; the contract names
/// the result without restating the TOML grammar.
#[verifier::external_body]
fn project_version_of(content: &str) -> (r: Option<String>)
    ensures
        match r {
            Some(s) => toml_project_version(content@) == Some(s@),
            None => toml_project_version(content@) is None,
        },
{
    let value: toml::Value = match toml::from_str(content) {
        Ok(v) => v,
        Err(_) => return None,
    };
    match value.get("project") {
        Some(project) => match project.get("version") {
            Some(version) => version.as_str().map(String::from),
            None => None,
        },
        None => None,
    }
}

/// The version label recorded for a `project.version` value.
pub open spec fn version_label_spec(raw: Seq<char>) -> Option<Seq<char>> {
    if trim(raw).len() == 0 {
        None
    } else if trim(raw)[0] == 'v' {
        Some(trim(raw))
    } else {
        Some("v"@ + trim(raw))
    }
}

/// An instance configuration by its fields, strings by their characters.
pub type InstanceView = (Seq<char>, Seq<char>, Seq<char>, u16, Seq<char>);

pub open spec fn instance_view(c: InstanceConfig) -> InstanceView {
    (c.name@, c.version@, c.host@, c.port, c.created_at@)
}

/// The manifest entry recorded for a scanned directory: a UUID-named
/// directory with instance content and a non-blank `project.version`.
pub open spec fn scanned_entry(
    d: ScannedInstanceDir,
    default_host: Seq<char>,
    created_at: Seq<char>,
) -> Option<(Seq<char>, InstanceView)> {
    if !uuid_accepts(d.name@) || !d.has_content {
        None
    } else {
        match d.pyproject {
            None => None,
            Some(c) => match toml_project_version(c@) {
                None => None,
                Some(raw) => match version_label_spec(raw) {
                    None => None,
                    Some(label) => Some(
                        (
                            d.name@,
                            (
                                "Rev "@ + d.name@.take(
                                    if d.name@.len() < 8 {
                                        d.name@.len() as int
                                    } else {
                                        8
                                    },
                                ),
                                label,
                                default_host,
                                0u16,
                                created_at,
                            ),
                        ),
                    ),
                },
            },
        }
    }
}

pub open spec fn scanned_entry_fn(default_host: Seq<char>, created_at: Seq<char>) -> spec_fn(
    ScannedInstanceDir,
) -> Option<(Seq<char>, InstanceView)> {
    |d: ScannedInstanceDir| scanned_entry(d, default_host, created_at)
}

pub open spec fn entries_view(s: Seq<(String, InstanceConfig)>) -> Seq<(Seq<char>, InstanceView)> {
    s.map_values(|p: (String, InstanceConfig)| (p.0@, instance_view(p.1)))
}

fn scan_entry(d: &ScannedInstanceDir, default_host: &str, created_at: &str) -> (r: Option<
    (String, InstanceConfig),
>)
    ensures
        match r {
            Some(p) => scanned_entry(*d, default_host@, created_at@) == Some(
                (p.0@, instance_view(p.1)),
            ),
            None => scanned_entry(*d, default_host@, created_at@) is None,
        },
{
    if validate_instance_id(d.name.as_str()).is_err() || !d.has_content {
        return None;
    }
    let content = match &d.pyproject {
        Some(c) => c,
        None => return None,
    };
    let raw = match project_version_of(content.as_str()) {
        Some(v) => v,
        None => return None,
    };
    let label = match pyproject_version_label(raw.as_str()) {
        Some(l) => l,
        None => return None,
    };
    let inst = InstanceConfig {
        name: default_instance_name(d.name.as_str()),
        version: label,
        host: str_to_string(default_host),
        port: 0,
        created_at: str_to_string(created_at),
    };
    Some((d.name.clone(), inst))
}

/// The instances found on disk, in scan order.
pub fn scan_instances(dirs: &Vec<ScannedInstanceDir>, default_host: &str, created_at: &str) -> (r: Vec<
    (String, InstanceConfig),
>)
    ensures
        entries_view(r@) == keep_some(dirs@, scanned_entry_fn(default_host@, created_at@)),
{
    let ghost f = scanned_entry_fn(default_host@, created_at@);
    let mut out: Vec<(String, InstanceConfig)> = Vec::new();
    let mut i: usize = 0;
    while i < dirs.len()
        invariant
            i <= dirs@.len(),
            f == scanned_entry_fn(default_host@, created_at@),
            entries_view(out@) == keep_some(dirs@.take(i as int), f),
        decreases dirs.len() - i,
    {
        proof {
            lemma_keep_some_step(dirs@, f, i as int);
        }
        let e = scan_entry(&dirs[i], default_host, created_at);
        match e {
            Some(p) => {
                let ghost ob = out@;
                out.push(p);
                proof {
                    assert(entries_view(out@) =~= entries_view(ob).push(
                        (out@.last().0@, instance_view(out@.last().1)),
                    ));
                }
            },
            None => {},
        }
        i = i + 1;
    }
    assert(dirs@.take(i as int) =~= dirs@);
    out
}

/// The version recorded for a file of the versions directory, given as its
/// file name and full path.
pub open spec fn version_file_entry(f: (Seq<char>, Seq<char>)) -> Option<(Seq<char>, Seq<char>)> {
    if ends_with(f.0, ".zip"@) {
        Some((f.0.take(f.0.len() - 4), f.1))
    } else {
        None
    }
}

pub open spec fn version_file_entry_fn() -> spec_fn((Seq<char>, Seq<char>)) -> Option<
    (Seq<char>, Seq<char>),
> {
    |f: (Seq<char>, Seq<char>)| version_file_entry(f)
}

pub open spec fn files_view(s: Seq<(String, String)>) -> Seq<(Seq<char>, Seq<char>)> {
    s.map_values(|p: (String, String)| (p.0@, p.1@))
}

pub open spec fn versions_view(s: Seq<InstalledVersion>) -> Seq<(Seq<char>, Seq<char>)> {
    s.map_values(|v: InstalledVersion| (v.version@, v.zip_path@))
}

/// The installed versions found among the regular files of the versions
/// directory, each given as file name and path, in scan order.
pub fn scan_installed_versions(files: &Vec<(String, String)>) -> (r: Vec<InstalledVersion>)
    ensures
        versions_view(r@) == keep_some(files_view(files@), version_file_entry_fn()),
{
    let ghost f = version_file_entry_fn();
    let ghost fv = files_view(files@);
    let mut out: Vec<InstalledVersion> = Vec::new();
    let mut i: usize = 0;
    while i < files.len()
        invariant
            i <= files@.len(),
            f == version_file_entry_fn(),
            fv == files_view(files@),
            versions_view(out@) == keep_some(fv.take(i as int), f),
        decreases files.len() - i,
    {
        proof {
            lemma_keep_some_step(fv, f, i as int);
            assert(fv[i as int] == (files@[i as int].0@, files@[i as int].1@));
        }
        match installed_version_from_file(files[i].0.as_str(), files[i].1.as_str()) {
            Some(v) => {
                let ghost ob = out@;
                out.push(v);
                proof {
                    assert(versions_view(out@) =~= versions_view(ob).push(
                        (v.version@, v.zip_path@),
                    ));
                }
            },
            None => {},
        }
        i = i + 1;
    }
    assert(fv.take(i as int) =~= fv);
    out
}

/// The ids of `ids` that name an instance of `entries`, in order.
pub open spec fn retained_ids(ids: Seq<Seq<char>>, entries: Seq<(Seq<char>, InstanceView)>) -> Seq<
    Seq<char>,
> {
    keep_some(ids, retained_fn(entries))
}

pub open spec fn retained_fn(entries: Seq<(Seq<char>, InstanceView)>) -> spec_fn(Seq<char>) -> Option<
    Seq<char>,
> {
    |id: Seq<char>|
        if exists|j: int| 0 <= j < entries.len() && entries[j].0 == id {
            Some(id)
        } else {
            None
        }
}

pub open spec fn ids_view(s: Seq<String>) -> Seq<Seq<char>> {
    s.map_values(|x: String| x@)
}

/// Replaces the manifest's versions and instances with those found on disk
/// and keeps only the remembered running ids that still name an instance.
/// Directory names are distinct, as in any directory listing.
pub fn rebuild_instance_manifest_from_disk(
    manifest: &mut AppManifest,
    version_files: &Vec<(String, String)>,
    instance_dirs: &Vec<ScannedInstanceDir>,
    default_host: &str,
    created_at: &str,
) -> (r: RebuildInstanceManifestResult)
    requires
        forall|i: int, j: int|
            0 <= i < instance_dirs@.len() && 0 <= j < instance_dirs@.len() && i != j
                ==> instance_dirs@[i].name@ != instance_dirs@[j].name@,
    ensures
        final(manifest).wf(),
        versions_view(final(manifest).installed_versions@) == keep_some(
            files_view(version_files@),
            version_file_entry_fn(),
        ),
        entries_view(final(manifest).instances@) == keep_some(
            instance_dirs@,
            scanned_entry_fn(default_host@, created_at@),
        ),
        ids_view(final(manifest).tracked_instances_snapshot@) == retained_ids(
            ids_view(old(manifest).tracked_instances_snapshot@),
            entries_view(final(manifest).instances@),
        ),
        r.instances == final(manifest).instances@.len(),
        r.versions == final(manifest).installed_versions@.len(),
{
    let versions = scan_installed_versions(version_files);
    let instances = scan_instances(instance_dirs, default_host, created_at);
    proof {
        lemma_scanned_distinct(instance_dirs@, default_host@, created_at@);
        assert forall|i: int, j: int|
            0 <= i < key_view(instances@).len() && 0 <= j < key_view(instances@).len() && i != j
                implies key_view(instances@)[i].0 != key_view(instances@)[j].0 by {
            assert(key_view(instances@)[i].0 == entries_view(instances@)[i].0);
            assert(key_view(instances@)[j].0 == entries_view(instances@)[j].0);
        }
    }
    let ghost ev = entries_view(instances@);
    let ghost old_ids = ids_view(manifest.tracked_instances_snapshot@);
    let ghost f = retained_fn(ev);
    let mut kept: Vec<String> = Vec::new();
    let mut i: usize = 0;
    while i < manifest.tracked_instances_snapshot.len()
        invariant
            i <= manifest.tracked_instances_snapshot@.len(),
            old_ids == ids_view(manifest.tracked_instances_snapshot@),
            ev == entries_view(instances@),
            f == retained_fn(ev),
            distinct_keys(key_view(instances@)),
            ids_view(kept@) == keep_some(old_ids.take(i as int), f),
        decreases manifest.tracked_instances_snapshot.len() - i,
    {
        proof {
            lemma_keep_some_step(old_ids, f, i as int);
        }
        let id = &manifest.tracked_instances_snapshot[i];
        let found = table_find(&instances, id.as_str());
        proof {
            let idv = id@;
            assert(old_ids[i as int] == idv);
            match found {
                Some(k) => {
                    assert(ev[k as int].0 == idv);
                },
                None => {
                    crate::assoc::lemma_map_of_dom(key_view(instances@), idv);
                    if exists|j: int| 0 <= j < ev.len() && ev[j].0 == idv {
                        let j = choose|j: int| 0 <= j < ev.len() && ev[j].0 == idv;
                        assert(key_view(instances@)[j].0 == idv);
                    }
                },
            }
        }
        if found.is_some() {
            let ghost kb = kept@;
            kept.push(id.clone());
            proof {
                assert(ids_view(kept@) =~= ids_view(kb).push(id@));
            }
        }
        i = i + 1;
    }
    proof {
        assert(old_ids.take(i as int) =~= old_ids);
    }
    let r = RebuildInstanceManifestResult { instances: instances.len(), versions: versions.len() };
    manifest.installed_versions = versions;
    manifest.instances = instances;
    manifest.tracked_instances_snapshot = kept;
    r
}

proof fn lemma_keep_some_subset<A, B>(s: Seq<A>, f: spec_fn(A) -> Option<B>, k: int)
    requires
        0 <= k < keep_some(s, f).len(),
    ensures
        exists|j: int| 0 <= j < s.len() && f(s[j]) == Some(keep_some(s, f)[k]),
    decreases s.len(),
{
    let r = keep_some(s.drop_last(), f);
    if k < r.len() {
        lemma_keep_some_subset(s.drop_last(), f, k);
        let j = choose|j: int| 0 <= j < s.drop_last().len() && f(s.drop_last()[j]) == Some(r[k]);
        assert(s[j] == s.drop_last()[j]);
    } else {
        assert(f(s[s.len() - 1]) == Some(keep_some(s, f)[k]));
    }
}

proof fn lemma_scanned_distinct(dirs: Seq<ScannedInstanceDir>, h: Seq<char>, c: Seq<char>)
    requires
        forall|i: int, j: int|
            0 <= i < dirs.len() && 0 <= j < dirs.len() && i != j ==> dirs[i].name@ != dirs[j].name@,
    ensures
        forall|i: int, j: int|
            0 <= i < keep_some(dirs, scanned_entry_fn(h, c)).len() && 0 <= j < keep_some(
                dirs,
                scanned_entry_fn(h, c),
            ).len() && i != j ==> keep_some(dirs, scanned_entry_fn(h, c))[i].0 != keep_some(
                dirs,
                scanned_entry_fn(h, c),
            )[j].0,
    decreases dirs.len(),
{
    let f = scanned_entry_fn(h, c);
    if dirs.len() > 0 {
        let d = dirs.drop_last();
        lemma_scanned_distinct(d, h, c);
        let r = keep_some(d, f);
        match f(dirs.last()) {
            Some(b) => {
                assert forall|i: int| 0 <= i < r.len() implies r[i].0 != b.0 by {
                    lemma_keep_some_subset(d, f, i);
                    let j = choose|j: int| 0 <= j < d.len() && f(d[j]) == Some(r[i]);
                    assert(d[j] == dirs[j]);
                    assert(dirs[j].name@ != dirs[dirs.len() - 1].name@);
                }
                assert(keep_some(dirs, f) == r.push(b));
            },
            None => {},
        }
    }
}

} // verus!
