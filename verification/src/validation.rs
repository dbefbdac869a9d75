//! Validation of user-supplied identifiers and of backup and version archive
//! locations.

use vstd::prelude::*;
use vstd::string::*;

use crate::error::{detail_payload, AppError, ErrorKind};
use crate::lexical_path::{
    components_of, join_path, path_components, path_starts_with, root_token, starts_with_path,
    vecs_view,
};
use crate::archive_path::{is_dot, is_dotdot};
use crate::text::{
    chars_of, ends_with, ends_with_vec, eq_ignore_case, eq_ignore_case_vec, is_ascii_alnum,
    lower_seq, lower_vec, string_from_chars, str_to_string, subvec,
};

verus! {

pub open spec fn is_hex(c: char) -> bool {
    ('0' <= c && c <= '9') || ('a' <= c && c <= 'f') || ('A' <= c && c <= 'F')
}

/// 36 characters: hex digits with hyphens at 8, 13, 18 and 23.
pub open spec fn hyphenated_uuid(s: Seq<char>) -> bool {
    &&& s.len() == 36
    &&& forall|i: int|
        0 <= i < 36 ==> if i == 8 || i == 13 || i == 18 || i == 23 {
            s[i] == '-'
        } else {
            is_hex(#[trigger] s[i])
        }
}

/// The forms `uuid::Uuid::parse_str` accepts: 32 hex digits, the hyphenated
/// form, the hyphenated form in braces, or `urn:uuid:` (any ASCII case)
/// followed by the hyphenated form.
pub open spec fn uuid_accepts(s: Seq<char>) -> bool {
    ||| (s.len() == 32 && forall|i: int| 0 <= i < 32 ==> is_hex(#[trigger] s[i]))
    ||| hyphenated_uuid(s)
    ||| (s.len() == 38 && s[0] == '{' && s[37] == '}' && hyphenated_uuid(s.subrange(1, 37)))
    ||| (s.len() == 45 && eq_ignore_case(s.take(9), "urn:uuid:"@) && hyphenated_uuid(s.skip(9)))
}

/// `uuid::Uuid::parse_str(s).is_ok()`: the uuid crate's parser
/// (`try_parse` in its `parser.rs`) accepts exactly the forms of
/// [`uuid_accepts`], checking every byte.
#[verifier::external_body]
fn uuid_parses(s: &str) -> (b: bool)
    ensures
        b == uuid_accepts(s@),
{
    uuid::Uuid::parse_str(s).is_ok()
}

pub open spec fn invalid_instance_id_message() -> Seq<char> {
    "Invalid instance id"@
}

/// Instance ids are UUIDs.
pub fn validate_instance_id(instance_id: &str) -> (r: Result<(), AppError>)
    ensures
        r is Ok <==> uuid_accepts(instance_id@),
        r matches Err(e) ==> e@.0 == ErrorKind::Other && e@.1 == detail_payload(
            invalid_instance_id_message(),
        ),
{
    if !uuid_parses(instance_id) {
        return Err(AppError::other("Invalid instance id"));
    }
    Ok(())
}

pub open spec fn version_tag_char(c: char) -> bool {
    is_ascii_alnum(c) || c == '.' || c == '_' || c == '-' || c == '+'
}

pub open spec fn safe_version_tag(v: Seq<char>) -> bool {
    v.len() > 0 && forall|i: int| 0 <= i < v.len() ==> version_tag_char(#[trigger] v[i])
}

/// A version tag is non-empty and made of ASCII letters, digits and `._-+`.
pub fn validate_version_tag(version: &str) -> (r: Result<(), AppError>)
    ensures
        r is Ok <==> safe_version_tag(version@),
        r matches Err(e) ==> e@.0 == ErrorKind::VersionNotFound && e@.1 == seq![
            ("version"@, version@),
        ],
{
    let cs = chars_of(version);
    let mut ok = cs.len() > 0;
    let mut i: usize = 0;
    while i < cs.len()
        invariant
            cs@ == version@,
            i <= cs@.len(),
            ok == (cs@.len() > 0 && forall|j: int| 0 <= j < i ==> version_tag_char(#[trigger] cs@[j])),
        decreases cs.len() - i,
    {
        let c = cs[i];
        let good = ('a' <= c && c <= 'z') || ('A' <= c && c <= 'Z') || ('0' <= c && c <= '9') || c
            == '.' || c == '_' || c == '-' || c == '+';
        if !good {
            ok = false;
        }
        i = i + 1;
    }
    if !ok {
        return Err(AppError::version_not_found(version));
    }
    Ok(())
}

/// `Path::file_name`: the last component when it is a name.
pub open spec fn file_name_spec(p: Seq<char>) -> Option<Seq<char>> {
    let c = path_components(p);
    if c.len() == 0 {
        None
    } else {
        let last = c.last();
        if last == root_token() || is_dot(last) || is_dotdot(last) {
            None
        } else {
            Some(last)
        }
    }
}

pub fn file_name(path: &str) -> (r: Option<String>)
    ensures
        match r {
            Some(n) => file_name_spec(path@) == Some(n@),
            None => file_name_spec(path@) is None,
        },
{
    let c = components_of(&chars_of(path));
    if c.len() == 0 {
        return None;
    }
    let last = &c[c.len() - 1];
    assert(vecs_view(c@).last() == last@);
    let special = (last.len() == 1 && (last[0] == '/' || last[0] == '.')) || (last.len() == 2
        && last[0] == '.' && last[1] == '.');
    assert(special == (last@ == root_token() || is_dot(last@) || is_dotdot(last@))) by {
        if last@.len() == 1 {
            assert(last@ == seq![last@[0]]);
        }
        if last@.len() == 2 {
            assert(last@ == seq![last@[0], last@[1]]);
        }
    }
    if special {
        None
    } else {
        Some(string_from_chars(last.as_slice()))
    }
}

/// A backup archive name: ends with `.tar.gz` or `.zip`, ignoring ASCII case.
pub open spec fn backup_filename_spec(p: Seq<char>) -> bool {
    match file_name_spec(p) {
        Some(n) => ends_with(lower_seq(n), ".tar.gz"@) || ends_with(lower_seq(n), ".zip"@),
        None => false,
    }
}

pub fn is_backup_filename(path: &str) -> (b: bool)
    ensures
        b == backup_filename_spec(path@),
{
    match file_name(path) {
        Some(n) => {
            let lower = lower_vec(&chars_of(n.as_str()));
            ends_with_vec(&lower, &chars_of(".tar.gz")) || ends_with_vec(&lower, &chars_of(".zip"))
        },
        None => false,
    }
}

pub open spec fn is_backup_error(e: AppError, msg: Seq<char>) -> bool {
    e@.0 == ErrorKind::Backup && e@.1 == detail_payload(msg)
}

/// Where a requested backup lives: its file name taken into the backups
/// directory, which must name a backup archive.
pub open spec fn backup_candidate_spec(backups_dir: Seq<char>, backup_path: Seq<char>) -> Result<
    Seq<char>,
    Seq<char>,
> {
    match file_name_spec(backup_path) {
        None => Err("Invalid backup path"@),
        Some(n) => {
            let candidate = join_path(backups_dir, n);
            if !backup_filename_spec(candidate) {
                Err("Invalid backup filename"@)
            } else {
                Ok(candidate)
            }
        },
    }
}

pub fn backup_candidate_path(backups_dir: &str, backup_path: &str) -> (r: Result<String, AppError>)
    ensures
        match backup_candidate_spec(backups_dir@, backup_path@) {
            Ok(c) => r matches Ok(p) && p@ == c,
            Err(m) => r matches Err(e) && is_backup_error(e, m),
        },
{
    let name = match file_name(backup_path) {
        Some(n) => n,
        None => {
            return Err(AppError::backup("Invalid backup path"));
        },
    };
    let candidate = crate::paths::join(backups_dir, name.as_str());
    if !is_backup_filename(candidate.as_str()) {
        return Err(AppError::backup("Invalid backup filename"));
    }
    Ok(candidate)
}

/// What the file system says about a candidate path.
#[derive(Debug)]
pub enum PathProbe {
    /// Nothing exists there.
    Missing,
    /// It exists and resolves to this canonical path.
    Resolved(String),
    /// It exists but could not be resolved; the error's message.
    Failed(String),
}

/// What settling a probed backup candidate gives: a missing backup is an
/// error only when it must exist; an existing one must resolve inside the
/// (canonical) backups directory.
pub open spec fn backup_settled(
    r: Result<String, AppError>,
    candidate: Seq<char>,
    probe: PathProbe,
    require_exists: bool,
    backups_dir_canonical: Seq<char>,
) -> bool {
    match probe {
        PathProbe::Missing => if require_exists {
            r matches Err(e) && is_backup_error(e, Seq::empty())
        } else {
            r matches Ok(p) && p@ == candidate
        },
        PathProbe::Failed(m) => r matches Err(e) && is_backup_error(
            e,
            "Failed to resolve backup path: "@ + m@,
        ),
        PathProbe::Resolved(c) => if path_starts_with(c@, backups_dir_canonical) {
            r matches Ok(p) && p@ == c@
        } else {
            r matches Err(e) && is_backup_error(e, "Backup path is outside backups directory"@)
        },
    }
}

/// Settles a backup location once its candidate has been probed.
pub fn settle_backup_candidate(
    candidate: &str,
    probe: PathProbe,
    require_exists: bool,
    backups_dir_canonical: &str,
) -> (r: Result<String, AppError>)
    ensures
        backup_settled(r, candidate@, probe, require_exists, backups_dir_canonical@),
{
    match probe {
        PathProbe::Missing => {
            if require_exists {
                proof {
                    reveal_strlit("");
                }
                Err(AppError::backup(""))
            } else {
                Ok(str_to_string(candidate))
            }
        },
        PathProbe::Failed(m) => {
            let mut msg = str_to_string("Failed to resolve backup path: ");
            msg.append(m.as_str());
            Err(AppError::backup(msg.as_str()))
        },
        PathProbe::Resolved(c) => {
            if !starts_with_path(&chars_of(c.as_str()), &chars_of(backups_dir_canonical)) {
                return Err(AppError::backup("Backup path is outside backups directory"));
            }
            Ok(c)
        },
    }
}

/// Resolves a requested backup path: only its file name is used, taken into
/// the backups directory, and it must name a backup archive; the candidate so
/// built (see [`backup_candidate_path`]) is what `probe` reports on.
pub fn resolve_backup_path(
    backups_dir: &str,
    backup_path: &str,
    probe: PathProbe,
    require_exists: bool,
    backups_dir_canonical: &str,
) -> (r: Result<String, AppError>)
    ensures
        match backup_candidate_spec(backups_dir@, backup_path@) {
            Err(m) => r matches Err(e) && is_backup_error(e, m),
            Ok(c) => backup_settled(r, c, probe, require_exists, backups_dir_canonical@),
        },
{
    let candidate = backup_candidate_path(backups_dir, backup_path)?;
    settle_backup_candidate(candidate.as_str(), probe, require_exists, backups_dir_canonical)
}

pub open spec fn is_io_error(e: AppError, msg: Seq<char>) -> bool {
    e@.0 == ErrorKind::Io && e@.1 == detail_payload(msg)
}

/// The archive path of an installed version: `versions/<version>.zip`, for
/// a safe version tag.
pub open spec fn version_zip_candidate_spec(versions_dir: Seq<char>, version: Seq<char>) -> Option<
    Seq<char>,
> {
    if !safe_version_tag(version) {
        None
    } else {
        match file_name_spec(join_path(versions_dir, version + ".zip"@)) {
            Some(n) => Some(join_path(versions_dir, n)),
            None => None,
        }
    }
}

pub fn version_zip_candidate(versions_dir: &str, version: &str) -> (r: Result<String, AppError>)
    ensures
        !safe_version_tag(version@) ==> (r matches Err(e) && e@.0 == ErrorKind::VersionNotFound
            && e@.1 == seq![("version"@, version@)]),
        safe_version_tag(version@) ==> match version_zip_candidate_spec(versions_dir@, version@) {
            Some(c) => r matches Ok(p) && p@ == c,
            None => r matches Err(e) && is_io_error(e, "Invalid version zip path"@),
        },
{
    validate_version_tag(version)?;
    let mut name = str_to_string(version);
    name.append(".zip");
    let zip_path = crate::paths::join(versions_dir, name.as_str());
    match file_name(zip_path.as_str()) {
        Some(n) => Ok(crate::paths::join(versions_dir, n.as_str())),
        None => Err(AppError::io("Invalid version zip path")),
    }
}

/// What settling a probed version archive gives: an existing archive must
/// resolve inside the canonical versions directory, a missing one must lie
/// under the versions directory.
pub open spec fn version_zip_settled(
    r: Result<String, AppError>,
    zip_path: Seq<char>,
    probe: PathProbe,
    versions_dir: Seq<char>,
    versions_dir_canonical: Seq<char>,
) -> bool {
    match probe {
        PathProbe::Missing => if path_starts_with(zip_path, versions_dir) {
            r matches Ok(p) && p@ == zip_path
        } else {
            r matches Err(e) && is_io_error(e, "Version zip path is outside versions directory"@)
        },
        PathProbe::Failed(m) => r matches Err(e) && is_io_error(
            e,
            "Failed to resolve version zip path: "@ + m@,
        ),
        PathProbe::Resolved(c) => if path_starts_with(c@, versions_dir_canonical) {
            r matches Ok(p) && p@ == c@
        } else {
            r matches Err(e) && is_io_error(e, "Version zip path is outside versions directory"@)
        },
    }
}

/// Settles a version archive location once it has been probed.
pub fn settle_version_zip(
    zip_path: &str,
    probe: PathProbe,
    versions_dir: &str,
    versions_dir_canonical: &str,
) -> (r: Result<String, AppError>)
    ensures
        version_zip_settled(r, zip_path@, probe, versions_dir@, versions_dir_canonical@),
{
    match probe {
        PathProbe::Resolved(c) => {
            if !starts_with_path(&chars_of(c.as_str()), &chars_of(versions_dir_canonical)) {
                return Err(AppError::io("Version zip path is outside versions directory"));
            }
            Ok(c)
        },
        PathProbe::Failed(m) => {
            let mut msg = str_to_string("Failed to resolve version zip path: ");
            msg.append(m.as_str());
            Err(AppError::io(msg.as_str()))
        },
        PathProbe::Missing => {
            if !starts_with_path(&chars_of(zip_path), &chars_of(versions_dir)) {
                return Err(AppError::io("Version zip path is outside versions directory"));
            }
            Ok(str_to_string(zip_path))
        },
    }
}

/// Resolves the archive of an installed version: a bad tag is refused as
/// `VersionNotFound` before anything else; otherwise the archive
/// `versions/<version>.zip` (see [`version_zip_candidate`]) is what `probe`
/// reports on.
pub fn resolve_version_zip_path(
    versions_dir: &str,
    version: &str,
    probe: PathProbe,
    versions_dir_canonical: &str,
) -> (r: Result<String, AppError>)
    ensures
        !safe_version_tag(version@) ==> (r matches Err(e) && e@.0 == ErrorKind::VersionNotFound
            && e@.1 == seq![("version"@, version@)]),
        safe_version_tag(version@) ==> match version_zip_candidate_spec(versions_dir@, version@) {
            None => r matches Err(e) && is_io_error(e, "Invalid version zip path"@),
            Some(c) => version_zip_settled(r, c, probe, versions_dir@, versions_dir_canonical@),
        },
{
    let zip_path = version_zip_candidate(versions_dir, version)?;
    settle_version_zip(zip_path.as_str(), probe, versions_dir, versions_dir_canonical)
}

} // verus!
