//! Sweeping Python bytecode caches out of an instance.

use vstd::prelude::*;
use vstd::string::*;

use crate::archive_path::strs_view;
use crate::error::{detail_payload, AppError, ErrorKind};
use crate::lexical_path::join_path;
use crate::paths::{get_instance_core_dir, get_instance_venv_dir, instance_dir_spec};
use crate::text::{chars_of, eq_vec, str_to_string, subvec};
use crate::validation::{invalid_instance_id_message, uuid_accepts, validate_instance_id};

verus! {

/// What a sweep does with one entry it walks over.
#[derive(Debug, Clone, Copy, PartialEq, Eq, Structural)]
pub enum CleanupAction {
    /// Remove the directory with its contents and do not descend into it.
    RemoveDir,
    /// Remove the file.
    RemoveFile,
    /// Leave it.
    Keep,
}

/// Index of the last `.` in `s`, or -1.
pub open spec fn last_dot(s: Seq<char>) -> int
    decreases s.len(),
{
    if s.len() == 0 {
        -1
    } else if s.last() == '.' {
        s.len() - 1
    } else {
        last_dot(s.drop_last())
    }
}

/// The extension of a file name as `Path::extension` reads it: the text after
/// the last dot, unless there is no dot, the only dot leads the name, or the
/// name is `..`.
pub open spec fn extension_spec(name: Seq<char>) -> Option<Seq<char>> {
    if name == ".."@ || last_dot(name) <= 0 {
        None
    } else {
        Some(name.skip(last_dot(name) + 1))
    }
}

fn last_dot_index(v: &Vec<char>) -> (r: Option<usize>)
    ensures
        match r {
            Some(i) => i == last_dot(v@) && i < v@.len(),
            None => last_dot(v@) == -1,
        },
{
    let mut i: usize = v.len();
    assert(v@.take(i as int) =~= v@);
    while i > 0
        invariant
            i <= v@.len(),
            last_dot(v@) == last_dot(v@.take(i as int)),
        decreases i,
    {
        assert(v@.take(i as int).drop_last() =~= v@.take(i - 1));
        if v[i - 1] == '.' {
            return Some(i - 1);
        }
        i = i - 1;
    }
    assert(v@.take(0) =~= Seq::<char>::empty());
    None
}

/// The extension of a file name.
pub fn file_extension(name: &str) -> (r: Option<String>)
    ensures
        match r {
            Some(e) => extension_spec(name@) == Some(e@),
            None => extension_spec(name@) is None,
        },
{
    let cs = chars_of(name);
    proof {
        reveal_strlit("..");
    }
    if eq_vec(&cs, &chars_of("..")) {
        return None;
    }
    match last_dot_index(&cs) {
        None => None,
        Some(i) => {
            if i == 0 {
                None
            } else {
                assert(i < cs.len());
                let e = subvec(&cs, i + 1, cs.len());
                assert(e@ =~= name@.skip(i + 1));
                Some(crate::text::string_from_chars(e.as_slice()))
            }
        },
    }
}

/// What a sweep does with an entry: `__pycache__` directories go whole,
/// `.pyc` files go, everything else stays.
pub open spec fn cleanup_action_spec(is_dir: bool, is_file: bool, name: Seq<char>) -> CleanupAction {
    if is_dir && name == "__pycache__"@ {
        CleanupAction::RemoveDir
    } else if is_file && extension_spec(name) == Some("pyc"@) {
        CleanupAction::RemoveFile
    } else {
        CleanupAction::Keep
    }
}

/// What a sweep does with one walked entry.
pub fn pycache_action(is_dir: bool, is_file: bool, name: &str) -> (r: CleanupAction)
    ensures
        r == cleanup_action_spec(is_dir, is_file, name@),
{
    if is_dir && eq_vec(&chars_of(name), &chars_of("__pycache__")) {
        return CleanupAction::RemoveDir;
    }
    if is_file {
        match file_extension(name) {
            Some(e) => {
                if eq_vec(&chars_of(e.as_str()), &chars_of("pyc")) {
                    return CleanupAction::RemoveFile;
                }
            },
            None => {},
        }
    }
    CleanupAction::Keep
}

/// The directories of an instance to sweep: its code and its virtual
/// environment, each when it exists; refused for an id that is no UUID.
pub fn clear_pycache(
    data_dir: &str,
    instance_id: &str,
    core_dir_exists: bool,
    venv_dir_exists: bool,
) -> (r: Result<Vec<String>, AppError>)
    ensures
        r is Ok <==> uuid_accepts(instance_id@),
        r matches Err(e) ==> e@ == (ErrorKind::Other, detail_payload(invalid_instance_id_message())),
        r matches Ok(dirs) ==> strs_view(dirs@) == (if core_dir_exists {
            seq![join_path(instance_dir_spec(data_dir@, instance_id@), "core"@)]
        } else {
            Seq::empty()
        }) + (if venv_dir_exists {
            seq![join_path(instance_dir_spec(data_dir@, instance_id@), "venv"@)]
        } else {
            Seq::empty()
        }),
{
    match validate_instance_id(instance_id) {
        Err(e) => return Err(e),
        Ok(()) => {},
    }
    let mut dirs: Vec<String> = Vec::new();
    if core_dir_exists {
        dirs.push(get_instance_core_dir(data_dir, instance_id));
    }
    if venv_dir_exists {
        dirs.push(get_instance_venv_dir(data_dir, instance_id));
    }
    let ghost core = join_path(instance_dir_spec(data_dir@, instance_id@), "core"@);
    let ghost venv = join_path(instance_dir_spec(data_dir@, instance_id@), "venv"@);
    assert(strs_view(dirs@) =~= (if core_dir_exists {
        seq![core]
    } else {
        Seq::empty()
    }) + (if venv_dir_exists {
        seq![venv]
    } else {
        Seq::empty()
    }));
    Ok(dirs)
}

} // verus!
