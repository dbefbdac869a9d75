//! Start-up migrations: moving the legacy Python runtime directories into the
//! component layout, rewriting the virtual environments that point at them,
//! reading a runtime's executable architecture, and combining the manifests
//! found in legacy configuration files.

use vstd::prelude::*;
use vstd::string::*;

use crate::lexical_path::join_path;
use crate::manifest::{merge_ids, merge_versions, AppManifest};
use crate::paths::{component_dir_spec, get_component_dir, join};
use crate::text::{chars_of, eq_vec, first_occurrence, find_seq_vec, string_from_chars, subvec};

verus! {

/// What to do with a legacy directory that is to move to a new place.
#[derive(Debug, Clone, Copy, PartialEq, Eq, Structural)]
pub enum MoveDirAction {
    /// The legacy directory is absent.
    Nothing,
    /// The new place is taken: the legacy directory is only removed.
    RemoveSource,
    /// Rename the legacy directory to the new place.
    Rename,
}

pub fn move_dir_action(source_exists: bool, destination_exists: bool) -> (r: MoveDirAction)
    ensures
        r == (if !source_exists {
            MoveDirAction::Nothing
        } else if destination_exists {
            MoveDirAction::RemoveSource
        } else {
            MoveDirAction::Rename
        }),
{
    if !source_exists {
        MoveDirAction::Nothing
    } else if destination_exists {
        MoveDirAction::RemoveSource
    } else {
        MoveDirAction::Rename
    }
}

pub open spec fn legacy_moves_spec(data_dir: Seq<char>) -> Seq<(Seq<char>, Seq<char>)> {
    seq![
        (join_path(data_dir, "python"@), join_path(component_dir_spec(data_dir, "python"@), "py312"@)),
        (
            join_path(data_dir, "compat_python"@),
            join_path(component_dir_spec(data_dir, "python"@), "py310"@),
        ),
    ]
}

pub open spec fn pairs_view(v: Seq<(String, String)>) -> Seq<(Seq<char>, Seq<char>)> {
    v.map_values(|p: (String, String)| (p.0@, p.1@))
}

/// The legacy runtime directories and where each moves: `python/` becomes the
/// 3.12 runtime and `compat_python/` the 3.10 runtime of the Python component.
pub fn legacy_python_moves(data_dir: &str) -> (r: Vec<(String, String)>)
    ensures
        pairs_view(r@) == legacy_moves_spec(data_dir@),
{
    let python = get_component_dir(data_dir, "python");
    let mut v: Vec<(String, String)> = Vec::new();
    v.push((join(data_dir, "python"), join(python.as_str(), "py312")));
    v.push((join(data_dir, "compat_python"), join(python.as_str(), "py310")));
    assert(pairs_view(v@) =~= legacy_moves_spec(data_dir@));
    v
}

/// `t` before every character of `s` and once more at the end (what
/// replacing the empty pattern does).
pub open spec fn interleave(s: Seq<char>, t: Seq<char>) -> Seq<char>
    decreases s.len(),
{
    if s.len() == 0 {
        t
    } else {
        t + seq![s[0]] + interleave(s.skip(1), t)
    }
}

/// Every non-overlapping occurrence of `p` in `s`, from the left, replaced
/// by `t` (`str::replace`).
pub open spec fn replace_all(s: Seq<char>, p: Seq<char>, t: Seq<char>) -> Seq<char>
    decreases s.len(),
{
    if p.len() == 0 {
        interleave(s, t)
    } else {
        match first_occurrence(s, p) {
            Some(i) => if 0 <= i && i + p.len() <= s.len() {
                s.take(i) + t + replace_all(s.skip(i + p.len()), p, t)
            } else {
                s
            },
            None => s,
        }
    }
}

fn interleave_vec(s: &Vec<char>, t: &Vec<char>) -> (r: Vec<char>)
    ensures
        r@ == interleave(s@, t@),
{
    let mut out: Vec<char> = Vec::new();
    let mut i: usize = s.len();
    let mut tail: Vec<char> = t.clone();
    assert(s@.skip(i as int) =~= Seq::<char>::empty());
    while i > 0
        invariant
            i <= s@.len(),
            tail@ == interleave(s@.skip(i as int), t@),
        decreases i,
    {
        let mut next = t.clone();
        next.push(s[i - 1]);
        crate::text::append_vec(&mut next, &tail);
        proof {
            assert(s@.skip(i - 1).skip(1) =~= s@.skip(i as int));
            assert(s@.skip(i - 1)[0] == s@[i - 1]);
            assert(next@ =~= t@ + seq![s@[i - 1]] + interleave(s@.skip(i as int), t@));
        }
        tail = next;
        i = i - 1;
    }
    assert(s@.skip(0) =~= s@);
    tail
}

/// `s` with every occurrence of `p` replaced by `t`.
pub fn replace_all_vec(s: &Vec<char>, p: &Vec<char>, t: &Vec<char>) -> (r: Vec<char>)
    ensures
        r@ == replace_all(s@, p@, t@),
    decreases s@.len(),
{
    if p.len() == 0 {
        return interleave_vec(s, t);
    }
    match find_seq_vec(s, p) {
        None => s.clone(),
        Some(i) => {
            assert(s@.len() == s.len());
            let head = subvec(s, 0, i);
            let rest = subvec(s, i + p.len(), s.len());
            assert(rest@ =~= s@.skip(i + p@.len()));
            assert(head@ =~= s@.take(i as int));
            let tail = replace_all_vec(&rest, p, t);
            let mut out = head;
            crate::text::append_vec(&mut out, t);
            crate::text::append_vec(&mut out, &tail);
            out
        },
    }
}

/// The text after each replacement pair is applied in turn.
pub open spec fn replace_each(s: Seq<char>, pairs: Seq<(Seq<char>, Seq<char>)>) -> Seq<char>
    decreases pairs.len(),
{
    if pairs.len() == 0 {
        s
    } else {
        replace_all(replace_each(s, pairs.drop_last()), pairs.last().0, pairs.last().1)
    }
}

/// The new text of a `pyvenv.cfg` with each legacy runtime path replaced by
/// its new path, or nothing when the text does not change.
pub fn rewrite_pyvenv_cfg(content: &str, replacements: &Vec<(String, String)>) -> (r: Option<String>)
    ensures
        match r {
            Some(n) => n@ == replace_each(content@, pairs_view(replacements@)) && n@ != content@,
            None => replace_each(content@, pairs_view(replacements@)) == content@,
        },
{
    let ghost pv = pairs_view(replacements@);
    let original = chars_of(content);
    let mut cur = chars_of(content);
    let mut i: usize = 0;
    while i < replacements.len()
        invariant
            i <= replacements@.len(),
            pv == pairs_view(replacements@),
            original@ == content@,
            cur@ == replace_each(content@, pv.take(i as int)),
        decreases replacements.len() - i,
    {
        proof {
            assert(pv.take(i + 1).drop_last() =~= pv.take(i as int));
            assert(pv[i as int] == (replacements@[i as int].0@, replacements@[i as int].1@));
        }
        cur = replace_all_vec(
            &cur,
            &chars_of(replacements[i].0.as_str()),
            &chars_of(replacements[i].1.as_str()),
        );
        i = i + 1;
    }
    assert(pv.take(i as int) =~= pv);
    if eq_vec(&cur, &original) {
        None
    } else {
        Some(string_from_chars(cur.as_slice()))
    }
}

/// The machine types of a Windows executable that the migration tells apart.
pub const IMAGE_FILE_MACHINE_AMD64: u16 = 0x8664;

pub const IMAGE_FILE_MACHINE_ARM64: u16 = 0xAA64;

/// Where the NT headers start, read from the 64-byte DOS header: the header
/// must be complete and start with `MZ`; the offset is the little-endian
/// word at 0x3C.
pub fn pe_nt_offset(dos_header: &Vec<u8>) -> (r: Result<u64, &'static str>)
    ensures
        dos_header@.len() < 0x40 ==> r == Err::<u64, &'static str>("File too small for DOS header"),
        dos_header@.len() >= 0x40 && !(dos_header@[0] == 0x4D && dos_header@[1] == 0x5A) ==> r
            == Err::<u64, &'static str>("Invalid DOS signature"),
        dos_header@.len() >= 0x40 && dos_header@[0] == 0x4D && dos_header@[1] == 0x5A ==> r
            == Ok::<u64, &'static str>(
            (dos_header@[0x3C] + dos_header@[0x3D] * 0x100 + dos_header@[0x3E] * 0x10000
                + dos_header@[0x3F] * 0x1000000) as u64,
        ),
{
    if dos_header.len() < 0x40 {
        return Err("File too small for DOS header");
    }
    if !(dos_header[0] == 0x4D && dos_header[1] == 0x5A) {
        return Err("Invalid DOS signature");
    }
    let b0 = dos_header[0x3C] as u64;
    let b1 = dos_header[0x3D] as u64;
    let b2 = dos_header[0x3E] as u64;
    let b3 = dos_header[0x3F] as u64;
    Ok(b0 + b1 * 0x100 + b2 * 0x10000 + b3 * 0x1000000)
}

/// The machine type from the six bytes at the NT header: the signature
/// `PE\0\0` and the little-endian machine word.
pub fn pe_machine(nt_prefix: &Vec<u8>) -> (r: Result<u16, &'static str>)
    ensures
        nt_prefix@.len() < 6 ==> r == Err::<u16, &'static str>("NT/COFF header out of bounds"),
        nt_prefix@.len() >= 6 && !(nt_prefix@[0] == 0x50 && nt_prefix@[1] == 0x45 && nt_prefix@[2]
            == 0 && nt_prefix@[3] == 0) ==> r == Err::<u16, &'static str>("Invalid NT signature"),
        nt_prefix@.len() >= 6 && nt_prefix@[0] == 0x50 && nt_prefix@[1] == 0x45 && nt_prefix@[2]
            == 0 && nt_prefix@[3] == 0 ==> r == Ok::<u16, &'static str>(
            (nt_prefix@[4] + nt_prefix@[5] * 0x100) as u16,
        ),
{
    if nt_prefix.len() < 6 {
        return Err("NT/COFF header out of bounds");
    }
    if !(nt_prefix[0] == 0x50 && nt_prefix[1] == 0x45 && nt_prefix[2] == 0 && nt_prefix[3] == 0) {
        return Err("Invalid NT signature");
    }
    let lo = nt_prefix[4] as u16;
    let hi = nt_prefix[5] as u16;
    Ok(lo + hi * 0x100)
}

/// A runtime is replaced only when its executable is known to be built for ARM64.
pub fn runtime_needs_replacement(machine: Option<u16>) -> (b: bool)
    ensures
        b == (machine == Some(IMAGE_FILE_MACHINE_ARM64)),
{
    match machine {
        Some(m) => m == IMAGE_FILE_MACHINE_ARM64,
        None => false,
    }
}

/// A legacy `config.toml` carries manifest data when its top-level table has
/// one of these keys.
pub open spec fn manifest_field(k: Seq<char>) -> bool {
    k == "instances"@ || k == "installed_versions"@ || k == "tracked_instances_snapshot"@
}

/// The top-level keys of a TOML document, when it parses to a table.
pub uninterp spec fn toml_table_keys(content: Seq<char>) -> Option<Seq<Seq<char>>>;

/// Parses the text with `toml::from_str::<toml::Value>` and lists the keys of
/// the top-level table (`Value::as_table`, `Map::keys`); the contract names
/// the result without restating the TOML grammar.
#[verifier::external_body]
fn top_level_keys(content: &str) -> (r: Option<Vec<String>>)
    ensures
        match r {
            Some(v) => toml_table_keys(content@) == Some(crate::archive_path::strs_view(v@)),
            None => toml_table_keys(content@) is None,
        },
{
    let value: toml::Value = match toml::from_str(content) {
        Ok(v) => v,
        Err(_) => return None,
    };
    match value.as_table() {
        Some(table) => Some(table.keys().cloned().collect()),
        None => None,
    }
}

/// Whether a legacy configuration text carries manifest data.
pub open spec fn carries_manifest(content: Seq<char>) -> bool {
    match toml_table_keys(content) {
        Some(keys) => exists|i: int| 0 <= i < keys.len() && manifest_field(#[trigger] keys[i]),
        None => false,
    }
}

pub fn has_manifest_fields(content: &str) -> (b: bool)
    ensures
        b == carries_manifest(content@),
{
    let keys = match top_level_keys(content) {
        Some(k) => k,
        None => return false,
    };
    let ghost kv = crate::archive_path::strs_view(keys@);
    let mut i: usize = 0;
    while i < keys.len()
        invariant
            i <= keys@.len(),
            kv == crate::archive_path::strs_view(keys@),
            toml_table_keys(content@) == Some(kv),
            forall|j: int| 0 <= j < i ==> !manifest_field(#[trigger] kv[j]),
        decreases keys.len() - i,
    {
        let k = chars_of(keys[i].as_str());
        assert(kv[i as int] == keys@[i as int]@);
        if eq_vec(&k, &chars_of("instances")) || eq_vec(&k, &chars_of("installed_versions"))
            || eq_vec(&k, &chars_of("tracked_instances_snapshot")) {
            proof {
                let ks = toml_table_keys(content@)->Some_0;
                assert(ks == kv);
                assert(manifest_field(ks[i as int]) && (i as int) < ks.len());
            }
            return true;
        }
        i = i + 1;
    }
    false
}

/// The manifest imported from legacy files: the one from `manifest.toml`
/// with what `config.toml` carried merged in (the former keeps priority), or
/// whichever of the two exists.
pub fn combine_legacy_manifests(from_file: Option<AppManifest>, from_config: Option<AppManifest>) -> (r:
    Option<AppManifest>)
    requires
        from_file matches Some(m) ==> m.wf(),
        from_config matches Some(m) ==> m.wf(),
    ensures
        (from_file is None && from_config is None) <==> r is None,
        r matches Some(m) ==> m.wf(),
        from_file is None ==> r == from_config,
        from_config is None ==> r == from_file,
        match (from_file, from_config) {
            (Some(f), Some(c)) => r matches Some(m) && {
                &&& m.instances_map() == c.instances_map().union_prefer_right(f.instances_map())
                &&& m.installed_versions@ == merge_versions(
                    f.installed_versions@,
                    c.installed_versions@,
                )
                &&& crate::archive_path::strs_view(m.tracked_instances_snapshot@) == merge_ids(
                    crate::archive_path::strs_view(f.tracked_instances_snapshot@),
                    crate::archive_path::strs_view(c.tracked_instances_snapshot@),
                )
            },
            _ => true,
        },
{
    match (from_file, from_config) {
        (Some(mut f), Some(c)) => {
            crate::manifest::merge_manifest(&mut f, &c);
            Some(f)
        },
        (Some(f), None) => Some(f),
        (None, Some(c)) => Some(c),
        (None, None) => None,
    }
}

} // verus!
