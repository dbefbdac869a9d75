//! Backups: naming, metadata records, routing of archive entries on restore,
//! the pending auto-backup check and the restore preconditions.

use vstd::prelude::*;
use vstd::string::*;

use crate::archive_path::strs_view;
use crate::error::{detail_payload, AppError, ErrorKind};
use crate::lexical_path::{components_of, join_path, path_components, vecs_view};
use crate::manifest::{is_installed, AppManifest, InstanceConfig};
use crate::text::{
    chars_of, contains_char_vec, ends_with, ends_with_vec, eq_vec, find_seq_vec, first_occurrence,
    join_char, starts_with, starts_with_vec, str_to_string,
};
use crate::validation::{file_name, file_name_spec};

verus! {

/// What `backup.toml` inside a backup archive records.
#[derive(Debug)]
pub struct BackupMetadata {
    pub created_at: String,
    pub instance_name: String,
    pub instance_id: String,
    pub version: String,
    pub includes_venv: bool,
    pub includes_data: bool,
    pub arch_target: String,
    pub auto_generated: bool,
}

/// A backup file as listed to the user.
#[derive(Debug)]
pub struct BackupInfo {
    pub filename: String,
    pub path: String,
    pub metadata: BackupMetadata,
    pub corrupted: bool,
    pub parse_error: Option<String>,
}

/// Whether the file name of `path` ends with `.tar.gz`.
pub fn is_tar_gz(path: &str) -> (b: bool)
    ensures
        b == (file_name_spec(path@) matches Some(n) && ends_with(n, ".tar.gz"@)),
{
    match file_name(path) {
        Some(n) => ends_with_vec(&chars_of(n.as_str()), &chars_of(".tar.gz")),
        None => false,
    }
}

/// Whether some component of `path` is `__pycache__`.
pub fn path_contains_pycache(path: &str) -> (b: bool)
    ensures
        b == path_components(path@).contains("__pycache__"@),
{
    let c = components_of(&chars_of(path));
    let target = chars_of("__pycache__");
    let mut i: usize = 0;
    while i < c.len()
        invariant
            i <= c@.len(),
            target@ == "__pycache__"@,
            vecs_view(c@) == path_components(path@),
            forall|j: int| 0 <= j < i ==> vecs_view(c@)[j] != target@,
        decreases c.len() - i,
    {
        if eq_vec(&c[i], &target) {
            assert(vecs_view(c@)[i as int] == target@);
            return true;
        }
        i = i + 1;
    }
    false
}

/// The relative path (by components) starts with the component `first`.
pub open spec fn first_is(rel: Seq<Seq<char>>, first: Seq<char>) -> bool {
    rel.len() > 0 && rel[0] == first
}

/// Where a backup entry goes on restore: `data/...` entries (without
/// `__pycache__`) into the core directory; the metadata file, `venv/...`
/// and anything else are skipped.
pub open spec fn route_spec(rel: Seq<Seq<char>>, core_dir: Seq<char>) -> Option<Seq<char>> {
    if rel == seq!["backup.toml"@] {
        None
    } else if first_is(rel, "data"@) {
        if path_components(join_char(rel, '/')).contains("__pycache__"@) {
            None
        } else {
            Some(join_path(core_dir, join_char(rel, '/')))
        }
    } else {
        None
    }
}

fn first_component_is(relative: &Vec<String>, name: &str) -> (b: bool)
    ensures
        b == first_is(strs_view(relative@), name@),
{
    relative.len() > 0 && eq_vec(&chars_of(relative[0].as_str()), &chars_of(name))
}

/// Route an archive entry (given by its relative components) to its
/// destination in the core directory, or skip it.
pub fn route_backup_entry(relative: &Vec<String>, core_dir: &str) -> (r: Option<String>)
    ensures
        match r {
            Some(p) => route_spec(strs_view(relative@), core_dir@) == Some(p@),
            None => route_spec(strs_view(relative@), core_dir@) is None,
        },
{
    if relative.len() == 1 && eq_vec(&chars_of(relative[0].as_str()), &chars_of("backup.toml")) {
        assert(strs_view(relative@) =~= seq!["backup.toml"@]);
        return None;
    }
    assert(strs_view(relative@) != seq!["backup.toml"@] ==> true);
    if first_component_is(relative, "data") {
        let joined = crate::archive_path::join_segments(relative);
        if path_contains_pycache(joined.as_str()) {
            return None;
        }
        return Some(crate::paths::join(core_dir, joined.as_str()));
    }
    None
}

/// Where an entry goes when only the data of a backup is restored.
pub open spec fn data_route_spec(rel: Seq<Seq<char>>, core_dir: Seq<char>) -> Option<Seq<char>> {
    if !first_is(rel, "data"@) {
        None
    } else if path_components(join_char(rel, '/')).contains("__pycache__"@) {
        None
    } else {
        Some(join_path(core_dir, join_char(rel, '/')))
    }
}

pub fn route_data_entry(relative: &Vec<String>, core_dir: &str) -> (r: Option<String>)
    ensures
        match r {
            Some(p) => data_route_spec(strs_view(relative@), core_dir@) == Some(p@),
            None => data_route_spec(strs_view(relative@), core_dir@) is None,
        },
{
    if !first_component_is(relative, "data") {
        return None;
    }
    let joined = crate::archive_path::join_segments(relative);
    if path_contains_pycache(joined.as_str()) {
        return None;
    }
    Some(crate::paths::join(core_dir, joined.as_str()))
}

/// `<id>-<timestamp>.zip`, or `<id>-<timestamp>-auto.zip` for automatic backups.
pub fn backup_file_name(instance_id: &str, timestamp: &str, auto_generated: bool) -> (r: String)
    ensures
        r@ == instance_id@ + "-"@ + timestamp@ + (if auto_generated {
            "-auto.zip"@
        } else {
            ".zip"@
        }),
{
    let mut r = str_to_string(instance_id);
    r.append("-");
    r.append(timestamp);
    if auto_generated {
        r.append("-auto.zip");
    } else {
        r.append(".zip");
    }
    r
}

/// The metadata written into a new backup of an instance: data only, no
/// virtual environment, no architecture tag.
pub fn backup_metadata_for(
    instance: &InstanceConfig,
    instance_id: &str,
    created_at: &str,
    auto_generated: bool,
) -> (r: BackupMetadata)
    ensures
        r.created_at@ == created_at@,
        r.instance_name == instance.name,
        r.instance_id@ == instance_id@,
        r.version == instance.version,
        !r.includes_venv,
        r.includes_data,
        r.arch_target@.len() == 0,
        r.auto_generated == auto_generated,
{
    BackupMetadata {
        created_at: str_to_string(created_at),
        instance_name: instance.name.clone(),
        instance_id: str_to_string(instance_id),
        version: instance.version.clone(),
        includes_venv: false,
        includes_data: true,
        arch_target: String::new(),
        auto_generated,
    }
}

/// The listing entry of a backup whose metadata could not be read.
pub fn corrupted_backup_info(filename: &str, path: &str, error: &str) -> (r: BackupInfo)
    ensures
        r.filename@ == filename@,
        r.path@ == path@,
        r.corrupted,
        r.parse_error matches Some(e) && e@ == error@,
        r.metadata.instance_name@ == "(损坏备份)"@,
        r.metadata.created_at@.len() == 0,
        r.metadata.instance_id@.len() == 0,
        r.metadata.version@.len() == 0,
        !r.metadata.includes_venv && !r.metadata.includes_data && !r.metadata.auto_generated,
        r.metadata.arch_target@.len() == 0,
{
    BackupInfo {
        filename: str_to_string(filename),
        path: str_to_string(path),
        metadata: BackupMetadata {
            created_at: String::new(),
            instance_name: str_to_string("(损坏备份)"),
            instance_id: String::new(),
            version: String::new(),
            includes_venv: false,
            includes_data: false,
            arch_target: String::new(),
            auto_generated: false,
        },
        corrupted: true,
        parse_error: Some(str_to_string(error)),
    }
}

pub open spec fn backup_archive_name(name: Seq<char>) -> bool {
    ends_with(name, ".tar.gz"@) || ends_with(name, ".zip"@)
}

/// Backups are `.tar.gz` or `.zip` files.
pub fn is_backup_archive_name(name: &str) -> (b: bool)
    ensures
        b == backup_archive_name(name@),
{
    let cs = chars_of(name);
    ends_with_vec(&cs, &chars_of(".tar.gz")) || ends_with_vec(&cs, &chars_of(".zip"))
}

/// A file that may be an automatic backup of the instance: a backup archive
/// named `<id>-...` with `-auto` in its name.
pub open spec fn auto_candidate_spec(name: Seq<char>, instance_id: Seq<char>) -> bool {
    backup_archive_name(name) && starts_with(name, instance_id + "-"@) && first_occurrence(
        name,
        "-auto"@,
    ) is Some
}

pub fn is_auto_backup_candidate(name: &str, instance_id: &str) -> (b: bool)
    ensures
        b == auto_candidate_spec(name@, instance_id@),
{
    let cs = chars_of(name);
    let mut prefix = str_to_string(instance_id);
    prefix.append("-");
    is_backup_archive_name(name) && starts_with_vec(&cs, &chars_of(prefix.as_str()))
        && find_seq_vec(&cs, &chars_of("-auto")).is_some()
}

/// The metadata confirms an automatic backup of this instance.
pub fn is_pending_auto_backup(metadata: &BackupMetadata, instance_id: &str) -> (b: bool)
    ensures
        b == (metadata.auto_generated && metadata.instance_id@ == instance_id@),
{
    metadata.auto_generated && eq_vec(&chars_of(metadata.instance_id.as_str()), &chars_of(instance_id))
}

/// The name a file or directory of the data directory gets inside a backup
/// archive: `data/` followed by its path components joined with `/`,
/// whatever the platform's separator.
pub fn data_member_name(rel_parts: &Vec<String>) -> (r: String)
    ensures
        r@ == "data/"@ + join_char(strs_view(rel_parts@), '/'),
{
    let mut r = str_to_string("data/");
    r.append(crate::archive_path::join_segments(rel_parts).as_str());
    r
}

/// What writing a backup does with one entry of the walk of the data
/// directory.
#[derive(Debug, PartialEq, Eq)]
pub enum BackupWalkAction {
    /// A `__pycache__` directory: leave it and everything under it out.
    SkipDir,
    /// Add a directory member of this name.
    AddDir(String),
    /// Add a file member of this name, with the file's content.
    AddFile(String),
    /// Nothing to add: the data directory itself, or neither a directory nor
    /// a regular file.
    Ignore,
}

/// Decides what a backup holds of one entry of the data directory, given its
/// path components below the data directory (none for the data directory
/// itself) and its file type: cache directories (`__pycache__`) are skipped
/// with their contents, other directories and regular files become members
/// named by [`data_member_name`].
pub fn backup_walk_action(rel_parts: &Vec<String>, is_dir: bool, is_file: bool) -> (r: BackupWalkAction)
    ensures
        is_dir && rel_parts@.len() > 0 && rel_parts@.last()@ == "__pycache__"@ ==> r is SkipDir,
        is_dir && rel_parts@.len() > 0 && rel_parts@.last()@ != "__pycache__"@ ==> (r matches BackupWalkAction::AddDir(n)
            && n@ == "data/"@ + join_char(strs_view(rel_parts@), '/')),
        !is_dir && is_file ==> (r matches BackupWalkAction::AddFile(n) && n@ == "data/"@ + join_char(
            strs_view(rel_parts@),
            '/',
        )),
        !(is_dir && rel_parts@.len() > 0) && !(!is_dir && is_file) ==> r is Ignore,
{
    let n = rel_parts.len();
    if is_dir && n > 0 {
        let last = &rel_parts[n - 1];
        if eq_vec(&chars_of(last.as_str()), &chars_of("__pycache__")) {
            return BackupWalkAction::SkipDir;
        }
        return BackupWalkAction::AddDir(data_member_name(rel_parts));
    }
    if !is_dir && is_file {
        return BackupWalkAction::AddFile(data_member_name(rel_parts));
    }
    BackupWalkAction::Ignore
}

/// Whether a backup is removed once it has been restored: only one made
/// automatically (before an update) is.
pub fn removes_backup_after_restore(metadata: &BackupMetadata) -> (b: bool)
    ensures
        b == metadata.auto_generated,
{
    metadata.auto_generated
}

/// Lexicographic order of character sequences (the order of `String`).
pub open spec fn seq_lt(a: Seq<char>, b: Seq<char>) -> bool
    decreases a.len(),
{
    if a.len() == 0 {
        b.len() > 0
    } else if b.len() == 0 {
        false
    } else if a[0] != b[0] {
        a[0] < b[0]
    } else {
        seq_lt(a.subrange(1, a.len() as int), b.subrange(1, b.len() as int))
    }
}

/// Whether `a` sorts before `b`.
pub fn str_less(a: &str, b: &str) -> (r: bool)
    ensures
        r == seq_lt(a@, b@),
{
    let x = chars_of(a);
    let y = chars_of(b);
    let mut i: usize = 0;
    assert(x@.subrange(0, x@.len() as int) =~= x@);
    assert(y@.subrange(0, y@.len() as int) =~= y@);
    while i < x.len() && i < y.len() && x[i] == y[i]
        invariant
            i <= x@.len(),
            i <= y@.len(),
            x@ == a@,
            y@ == b@,
            seq_lt(a@, b@) == seq_lt(x@.subrange(i as int, x@.len() as int), y@.subrange(
                i as int,
                y@.len() as int,
            )),
        decreases x.len() - i,
    {
        proof {
            let xs = x@.subrange(i as int, x@.len() as int);
            let ys = y@.subrange(i as int, y@.len() as int);
            assert(xs.subrange(1, xs.len() as int) =~= x@.subrange(i + 1, x@.len() as int));
            assert(ys.subrange(1, ys.len() as int) =~= y@.subrange(i + 1, y@.len() as int));
        }
        i = i + 1;
    }
    if i == x.len() {
        i < y.len()
    } else if i == y.len() {
        false
    } else {
        assert(x@.subrange(i as int, x@.len() as int)[0] == x@[i as int]);
        assert(y@.subrange(i as int, y@.len() as int)[0] == y@[i as int]);
        x[i] < y[i]
    }
}

/// A candidate replaces the current pick when its modification time is
/// later, or equal with a later creation time.
pub open spec fn newer_spec(mtime: u128, created: Seq<char>, cur_mtime: u128, cur_created: Seq<char>) -> bool {
    mtime > cur_mtime || (mtime == cur_mtime && seq_lt(cur_created, created))
}

/// The latest of the candidates (each with its modification time), the
/// first one winning ties.
pub open spec fn latest_spec(c: Seq<(BackupInfo, u128)>) -> Option<(BackupInfo, u128)>
    decreases c.len(),
{
    if c.len() == 0 {
        None
    } else {
        match latest_spec(c.drop_last()) {
            None => Some(c.last()),
            Some(cur) => if newer_spec(
                c.last().1,
                c.last().0.metadata.created_at@,
                cur.1,
                cur.0.metadata.created_at@,
            ) {
                Some(c.last())
            } else {
                Some(cur)
            },
        }
    }
}

/// The pending automatic backup among the confirmed candidates.
pub fn select_latest_auto_backup(candidates: Vec<(BackupInfo, u128)>) -> (r: Option<BackupInfo>)
    ensures
        match latest_spec(candidates@) {
            None => r is None,
            Some(x) => r == Some(x.0),
        },
{
    let ghost all = candidates@;
    let mut rest = candidates;
    let mut latest: Option<(BackupInfo, u128)> = None;
    let ghost mut i: int = 0;
    while rest.len() > 0
        invariant
            0 <= i <= all.len(),
            rest@ == all.subrange(i, all.len() as int),
            latest == latest_spec(all.take(i)),
        decreases rest.len(),
    {
        let ghost before = rest@;
        let (info, mtime) = rest.remove(0);
        proof {
            assert(all.subrange(i, all.len() as int)[0] == all[i]);
            assert(all.take(i + 1).drop_last() =~= all.take(i));
            assert(all.take(i + 1).last() == all[i]);
            assert(rest@ =~= all.subrange(i + 1, all.len() as int));
        }
        let replace = match &latest {
            None => true,
            Some((cur, cur_mtime)) => mtime > *cur_mtime || (mtime == *cur_mtime && str_less(
                cur.metadata.created_at.as_str(),
                info.metadata.created_at.as_str(),
            )),
        };
        if replace {
            latest = Some((info, mtime));
        }
        proof {
            i = i + 1;
        }
    }
    assert(all.take(i) =~= all);
    match latest {
        Some((b, _)) => Some(b),
        None => None,
    }
}

pub open spec fn pending_backup_message(filename: Seq<char>, path: Seq<char>, for_update: bool) -> Seq<char> {
    if for_update {
        "检测到未处理的自动备份 "@ + filename + "（"@ + path
            + "）。这通常表示上次升降级的数据还原失败。请先在“备份管理”中手动恢复该备份并确认数据，再继续升降级。"@
    } else {
        "检测到未处理的自动备份 "@ + filename + "（"@ + path
            + "）。这通常表示上次升降级的数据还原失败。请先在\u{22}备份管理\u{22}中手动恢复该备份并确认数据，再启动实例。"@
    }
}

/// The refusal while an automatic backup awaits manual restoration; the
/// wording differs between starting and upgrading an instance.
pub fn pending_backup_error(pending: &BackupInfo, for_update: bool) -> (e: AppError)
    ensures
        e@.0 == ErrorKind::Backup,
        e@.1 == detail_payload(pending_backup_message(pending.filename@, pending.path@, for_update)),
{
    let mut m = str_to_string("检测到未处理的自动备份 ");
    m.append(pending.filename.as_str());
    m.append("（");
    m.append(pending.path.as_str());
    if for_update {
        m.append(
            "）。这通常表示上次升降级的数据还原失败。请先在“备份管理”中手动恢复该备份并确认数据，再继续升降级。",
        );
    } else {
        m.append(
            "）。这通常表示上次升降级的数据还原失败。请先在\u{22}备份管理\u{22}中手动恢复该备份并确认数据，再启动实例。",
        );
    }
    AppError::backup(m.as_str())
}

/// A backup restores onto its own instance, which must still exist, and its
/// version must be installed.
pub fn check_restore_target(manifest: &AppManifest, metadata: &BackupMetadata) -> (r: Result<
    (),
    AppError,
>)
    requires
        manifest.wf(),
    ensures
        !is_installed(manifest.installed_versions@, metadata.version@) ==> (r matches Err(e)
            && e@.0 == ErrorKind::VersionNotFound && e@.1 == seq![("version"@, metadata.version@)]),
        is_installed(manifest.installed_versions@, metadata.version@) && !manifest.instances_map().dom().contains(
            metadata.instance_id@,
        ) ==> (r matches Err(e) && e@.0 == ErrorKind::InstanceNotFound && e@.1 == seq![
            ("id"@, metadata.instance_id@),
        ]),
        r is Ok <==> (is_installed(manifest.installed_versions@, metadata.version@)
            && manifest.instances_map().dom().contains(metadata.instance_id@)),
{
    manifest.ensure_version_installed(metadata.version.as_str())?;
    if manifest.instance(metadata.instance_id.as_str()).is_none() {
        return Err(AppError::instance_not_found(metadata.instance_id.as_str()));
    }
    Ok(())
}

pub(crate) proof fn lemma_seq_lt_trichotomy(a: Seq<char>, b: Seq<char>)
    ensures
        seq_lt(a, b) || seq_lt(b, a) || a == b,
        !(seq_lt(a, b) && seq_lt(b, a)),
    decreases a.len(),
{
    if a.len() > 0 && b.len() > 0 && a[0] == b[0] {
        let a1 = a.subrange(1, a.len() as int);
        let b1 = b.subrange(1, b.len() as int);
        lemma_seq_lt_trichotomy(a1, b1);
        if a1 == b1 {
            assert(a =~= seq![a[0]] + a1);
            assert(b =~= seq![b[0]] + b1);
        }
    } else if a.len() == 0 && b.len() == 0 {
        assert(a =~= b);
    }
}

pub(crate) proof fn lemma_seq_lt_transitive(a: Seq<char>, b: Seq<char>, c: Seq<char>)
    requires
        seq_lt(a, b),
        seq_lt(b, c),
    ensures
        seq_lt(a, c),
    decreases a.len(),
{
    if a.len() > 0 && b.len() > 0 && c.len() > 0 && a[0] == b[0] && b[0] == c[0] {
        lemma_seq_lt_transitive(
            a.subrange(1, a.len() as int),
            b.subrange(1, b.len() as int),
            c.subrange(1, c.len() as int),
        );
    }
}

/// Newest first: no entry was created before a later one.
pub open spec fn newest_first(v: Seq<BackupInfo>) -> bool {
    forall|i: int, j: int|
        0 <= i < j < v.len() ==> !seq_lt(#[trigger] v[i].metadata.created_at@, #[trigger] v[j].metadata.created_at@)
}

pub(crate) proof fn lemma_insert_multiset<A>(s: Seq<A>, i: int, x: A)
    requires
        0 <= i <= s.len(),
    ensures
        s.insert(i, x).to_multiset() == s.to_multiset().insert(x),
{
    broadcast use vstd::seq_lib::group_to_multiset_ensures;

    let t = s.insert(i, x);
    assert(t.remove(i) =~= s);
    assert(t.to_multiset().remove(t[i]) == s.to_multiset());
    assert(t.contains(x)) by {
        assert(t[i] == x);
    }
    assert(t.to_multiset() =~= s.to_multiset().insert(x));
}

/// Entries created at `c`.
pub open spec fn created_at_is(c: Seq<char>) -> spec_fn(BackupInfo) -> bool {
    |b: BackupInfo| b.metadata.created_at@ == c
}

/// Inserting `x` in front of the first entry strictly older than it keeps,
/// for every creation time, the entries of that time in the order they
/// would have had with `x` appended.
proof fn lemma_insert_after_ties(before: Seq<BackupInfo>, p: int, x: BackupInfo, c: Seq<char>)
    requires
        0 <= p <= before.len(),
        newest_first(before),
        p < before.len() ==> seq_lt(before[p].metadata.created_at@, x.metadata.created_at@),
    ensures
        before.insert(p, x).filter(created_at_is(c)) == before.push(x).filter(created_at_is(c)),
{
    let f = created_at_is(c);
    let head = before.take(p);
    let tail = before.skip(p);
    assert(before.insert(p, x) =~= head + (seq![x] + tail));
    assert(before =~= head + tail);
    Seq::filter_distributes_over_add(head, seq![x] + tail, f);
    Seq::filter_distributes_over_add(head, tail, f);
    tail.lemma_filter_prepend(x, f);
    before.lemma_filter_push(x, f);
    let xc = x.metadata.created_at@;
    if c == xc {
        assert(tail.all(|b: BackupInfo| !f(b))) by {
            assert forall|i: int| 0 <= i < tail.len() implies !f(#[trigger] tail[i]) by {
                let pc = before[p].metadata.created_at@;
                let qc = before[p + i].metadata.created_at@;
                assert(tail[i] == before[p + i]);
                lemma_seq_lt_trichotomy(pc, xc);
                if i > 0 {
                    assert(!seq_lt(pc, qc));
                }
            }
        }
        tail.lemma_all_neg_filter_empty(f);
        assert(tail.filter(f) =~= Seq::<BackupInfo>::empty());
        assert(before.insert(p, x).filter(f) =~= before.push(x).filter(f));
    } else {
        assert(!f(x));
        assert((Seq::<BackupInfo>::empty() + tail.filter(f)) =~= tail.filter(f));
    }
}

/// The backups ordered by creation time, newest first (a stable insertion
/// sort on the `created_at` text).
pub fn sort_backups_newest_first(v: Vec<BackupInfo>) -> (r: Vec<BackupInfo>)
    ensures
        newest_first(r@),
        r@.to_multiset() == v@.to_multiset(),
        forall|c: Seq<char>| #[trigger] r@.filter(created_at_is(c)) == v@.filter(created_at_is(c)),
{
    broadcast use vstd::seq_lib::group_to_multiset_ensures;

    let ghost all = v@;
    let mut rest = v;
    let mut out: Vec<BackupInfo> = Vec::new();
    let ghost mut k: int = 0;
    while rest.len() > 0
        invariant
            0 <= k <= all.len(),
            rest@ == all.subrange(k, all.len() as int),
            newest_first(out@),
            out@.to_multiset() == all.take(k).to_multiset(),
            forall|c: Seq<char>| #[trigger] out@.filter(created_at_is(c)) == all.take(k).filter(created_at_is(c)),
        decreases rest.len(),
    {
        let ghost rb = rest@;
        let x = rest.remove(0);
        proof {
            assert(x == rb[0]);
            assert(all.subrange(k, all.len() as int)[0] == all[k]);
            assert(x == all[k]);
            assert(rest@ =~= all.subrange(k + 1, all.len() as int));
            assert(all.take(k + 1) =~= all.take(k).push(all[k]));
        }
        let mut p: usize = 0;
        while p < out.len() && !str_less(
            out[p].metadata.created_at.as_str(),
            x.metadata.created_at.as_str(),
        )
            invariant
                p <= out@.len(),
                forall|q: int| 0 <= q < p ==> !seq_lt(#[trigger] out@[q].metadata.created_at@, x.metadata.created_at@),
            decreases out.len() - p,
        {
            p = p + 1;
        }
        let ghost before = out@;
        proof {
            lemma_insert_multiset(before, p as int, x);
            assert forall|i: int, j: int|
                0 <= i < j < before.len() + 1 implies !seq_lt(
                #[trigger] before.insert(p as int, x)[i].metadata.created_at@,
                #[trigger] before.insert(p as int, x)[j].metadata.created_at@,
            ) by {
                let t = before.insert(p as int, x);
                let xc = x.metadata.created_at@;
                if i < p && j == p {
                } else if i == p && j > p {
                    // x is newer than the entry at p, which is not older than the one at j.
                    let pc = before[p as int].metadata.created_at@;
                    let jc = before[j - 1].metadata.created_at@;
                    assert(seq_lt(pc, xc));
                    if j - 1 > p {
                        assert(!seq_lt(pc, jc));
                    }
                    lemma_seq_lt_trichotomy(pc, jc);
                    lemma_seq_lt_trichotomy(xc, jc);
                    if seq_lt(xc, jc) {
                        if seq_lt(jc, pc) {
                            lemma_seq_lt_transitive(xc, jc, pc);
                            lemma_seq_lt_trichotomy(xc, pc);
                        } else {
                            lemma_seq_lt_trichotomy(xc, pc);
                        }
                    }
                } else if i < p && j > p {
                    assert(t[i] == before[i] && t[j] == before[j - 1]);
                } else if i > p {
                    assert(t[i] == before[i - 1] && t[j] == before[j - 1]);
                } else {
                    assert(t[i] == before[i] && t[j] == before[j]);
                }
            }
        }
        out.insert(p, x);
        proof {
            assert forall|c: Seq<char>| #[trigger] out@.filter(created_at_is(c)) == all.take(k + 1).filter(
                created_at_is(c),
            ) by {
                assert(out@ == before.insert(p as int, x));
                assert(all.take(k + 1) == all.take(k).push(x));
                assert(before.filter(created_at_is(c)) == all.take(k).filter(created_at_is(c)));
                lemma_insert_after_ties(before, p as int, x, c);
                before.lemma_filter_push(x, created_at_is(c));
                all.take(k).lemma_filter_push(x, created_at_is(c));
            }
            assert(out@.to_multiset() == all.take(k).to_multiset().insert(all[k]));
            all.take(k).to_multiset_ensures();
            assert(all.take(k).push(all[k]).to_multiset() =~= all.take(k).to_multiset().insert(
                all[k],
            ));
            assert(all.take(k + 1) == all.take(k).push(all[k]));
            k = k + 1;
        }
    }
    assert(all.take(k) =~= all);
    out
}

} // verus!
