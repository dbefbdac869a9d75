//! Per-entry decisions while unpacking an archive: refusing unsafe entry
//! paths, what to do with each kind of entry, which earlier file a hard link
//! may point at, and the size check of a written file.

use vstd::prelude::*;
use vstd::string::*;

use crate::archive_path::{entry_rel_path, parse_entry_rel_path, strs_view};
use crate::error::{detail_payload, AppError, ErrorKind};
use crate::text::{concat_str, decimal, str_to_string, u64_to_decimal};

verus! {

/// How `std` shows a string with `{:?}`.
pub uninterp spec fn str_debug(s: Seq<char>) -> Seq<char>;

/// Formats the string with `{:?}` (quoted, special characters escaped); the
/// contract names the text without restating the escaping rules.
#[verifier::external_body]
fn str_debug_text(s: &str) -> (r: String)
    ensures
        r@ == str_debug(s@),
{
    format!("{:?}", s)
}

/// Which archive format an entry comes from; the wording of the unsafe-path
/// error differs.
#[derive(Debug, Clone, Copy, PartialEq, Eq, Structural)]
pub enum ArchiveFormat {
    Zip,
    TarGz,
}

pub open spec fn unsafe_path_message(format: ArchiveFormat, raw: Seq<char>) -> Seq<char> {
    match format {
        ArchiveFormat::Zip => "archive contains unsafe zip path: "@ + str_debug(raw),
        ArchiveFormat::TarGz => "archive contains unsafe entry path: "@ + str_debug(raw),
    }
}

/// The relative path of an entry, or the error that stops the extraction
/// when the entry's path is unsafe.
pub fn check_entry_path(format: ArchiveFormat, raw_path: &str) -> (r: Result<Vec<String>, AppError>)
    ensures
        match entry_rel_path(raw_path@) {
            Some(rel) => r matches Ok(v) && strs_view(v@) == rel,
            None => r matches Err(e) && e@ == (
                ErrorKind::Io,
                detail_payload(unsafe_path_message(format, raw_path@)),
            ),
        },
{
    match parse_entry_rel_path(raw_path) {
        Some(v) => Ok(v),
        None => {
            let d = str_debug_text(raw_path);
            let m = match format {
                ArchiveFormat::Zip => concat_str("archive contains unsafe zip path: ", d.as_str()),
                ArchiveFormat::TarGz => concat_str(
                    "archive contains unsafe entry path: ",
                    d.as_str(),
                ),
            };
            Err(AppError::io(m.as_str()))
        },
    }
}

/// The kind of an archive entry; `Other` carries how the archive names an
/// unsupported kind.
#[derive(Debug)]
pub enum EntryKind {
    Directory,
    Regular,
    Symlink,
    HardLink,
    Other(String),
}

/// What to do with an entry that maps to a destination.
#[derive(Debug, Clone, Copy, PartialEq, Eq, Structural)]
pub enum EntryAction {
    /// Create the directory.
    MakeDir,
    /// Write the file and remember it as extracted.
    WriteFile,
    /// Check the link target now; create the link after all entries.
    QueueSymlink,
    /// Link to a file extracted earlier and remember the link as extracted.
    LinkHard,
}

pub open spec fn unsupported_kind_message(raw: Seq<char>, kind: Seq<char>) -> Seq<char> {
    "unsupported tar entry type at "@ + str_debug(raw) + ": "@ + kind
}

/// The action for an entry, or the error for a kind that is not supported.
pub fn entry_action(kind: &EntryKind, raw_path: &str) -> (r: Result<EntryAction, AppError>)
    ensures
        match kind {
            EntryKind::Directory => r == Ok::<EntryAction, AppError>(EntryAction::MakeDir),
            EntryKind::Regular => r == Ok::<EntryAction, AppError>(EntryAction::WriteFile),
            EntryKind::Symlink => r == Ok::<EntryAction, AppError>(EntryAction::QueueSymlink),
            EntryKind::HardLink => r == Ok::<EntryAction, AppError>(EntryAction::LinkHard),
            EntryKind::Other(k) => r matches Err(e) && e@ == (
                ErrorKind::Io,
                detail_payload(unsupported_kind_message(raw_path@, k@)),
            ),
        },
{
    match kind {
        EntryKind::Directory => Ok(EntryAction::MakeDir),
        EntryKind::Regular => Ok(EntryAction::WriteFile),
        EntryKind::Symlink => Ok(EntryAction::QueueSymlink),
        EntryKind::HardLink => Ok(EntryAction::LinkHard),
        EntryKind::Other(k) => {
            let d = str_debug_text(raw_path);
            let a = concat_str("unsupported tar entry type at ", d.as_str());
            let b = concat_str(a.as_str(), ": ");
            let m = concat_str(b.as_str(), k.as_str());
            Err(AppError::io(m.as_str()))
        },
    }
}

/// The files written so far during one extraction, by resolved path.
///
/// The set is kept as a list whose view is the set of its entries: vstd
/// states what `HashSet` lookups return only for element types it knows to
/// hash and compare by value (integers, `bool`), not for `String`, so the
/// contracts here are stated over that view.
#[derive(Debug)]
pub struct ExtractedFiles {
    paths: Vec<String>,
}

impl View for ExtractedFiles {
    type V = Set<Seq<char>>;

    closed spec fn view(&self) -> Set<Seq<char>> {
        Set::new(|p: Seq<char>| exists|i: int| 0 <= i < self.paths@.len() && self.paths@[i]@ == p)
    }
}

impl ExtractedFiles {
    pub fn new() -> (r: Self)
        ensures
            r@ == Set::<Seq<char>>::empty(),
    {
        let r = ExtractedFiles { paths: Vec::new() };
        assert(r@ =~= Set::<Seq<char>>::empty());
        r
    }

    /// Remembers a written file.
    pub fn record(&mut self, path: &str)
        ensures
            final(self)@ == old(self)@.insert(path@),
    {
        let ghost before = self.paths@;
        self.paths.push(str_to_string(path));
        proof {
            assert forall|p: Seq<char>| final(self)@.contains(p) <==> old(self)@.insert(path@).contains(p) by {
                if p == path@ {
                    assert(self.paths@[before.len() as int]@ == p);
                }
                if old(self)@.contains(p) {
                    let i = choose|i: int| 0 <= i < before.len() && before[i]@ == p;
                    assert(self.paths@[i]@ == p);
                }
                if final(self)@.contains(p) && p != path@ {
                    let i = choose|i: int| 0 <= i < self.paths@.len() && self.paths@[i]@ == p;
                    assert(i < before.len());
                    assert(before[i]@ == p);
                }
            }
            assert(final(self)@ =~= old(self)@.insert(path@));
        }
    }

    /// Whether a file was written at this path.
    pub fn contains(&self, path: &str) -> (b: bool)
        ensures
            b == self@.contains(path@),
    {
        let mut i: usize = 0;
        while i < self.paths.len()
            invariant
                i <= self.paths@.len(),
                forall|j: int| 0 <= j < i ==> self.paths@[j]@ != path@,
            decreases self.paths.len() - i,
        {
            if crate::text::eq_vec(
                &crate::text::chars_of(self.paths[i].as_str()),
                &crate::text::chars_of(path),
            ) {
                assert(self.paths@[i as int]@ == path@);
                return true;
            }
            i = i + 1;
        }
        false
    }
}

pub open spec fn missing_link_target_message() -> Seq<char> {
    "hard link target is unsafe or was not extracted earlier in the archive"@
}

/// The first candidate of a hard link's target that was extracted earlier;
/// the candidates are the target as the archive maps it (when it maps) and
/// the target next to the link.
pub fn choose_hard_link_target(candidates: &Vec<String>, extracted: &ExtractedFiles) -> (r: Result<
    String,
    AppError,
>)
    ensures
        match r {
            Ok(t) => exists|i: int|
                0 <= i < candidates@.len() && candidates@[i]@ == t@ && extracted@.contains(t@)
                    && forall|j: int| 0 <= j < i ==> !extracted@.contains(#[trigger] candidates@[j]@),
            Err(e) => (forall|i: int| 0 <= i < candidates@.len() ==> !extracted@.contains(#[trigger] candidates@[i]@))
                && e@ == (ErrorKind::Io, detail_payload(missing_link_target_message())),
        },
{
    let mut i: usize = 0;
    while i < candidates.len()
        invariant
            i <= candidates@.len(),
            forall|j: int| 0 <= j < i ==> !extracted@.contains(#[trigger] candidates@[j]@),
        decreases candidates.len() - i,
    {
        if extracted.contains(candidates[i].as_str()) {
            let t = candidates[i].clone();
            return Ok(t);
        }
        i = i + 1;
    }
    Err(AppError::io("hard link target is unsafe or was not extracted earlier in the archive"))
}

pub open spec fn size_mismatch_message(expected: u64, written: u64) -> Seq<char> {
    "archive entry size mismatch: expected "@ + decimal(expected as nat) + " bytes, wrote "@
        + decimal(written as nat) + " bytes"@
}

/// A written file must have the size its entry declares, when it declares one.
pub fn check_written_size(declared_size: Option<u64>, written: u64) -> (r: Result<(), AppError>)
    ensures
        r is Ok <==> (declared_size matches Some(s) ==> s == written),
        r matches Err(e) ==> (declared_size matches Some(s) && e@ == (
            ErrorKind::Io,
            detail_payload(size_mismatch_message(s, written)),
        )),
{
    match declared_size {
        Some(expected) => {
            if written != expected {
                let a = concat_str(
                    "archive entry size mismatch: expected ",
                    u64_to_decimal(expected).as_str(),
                );
                let b = concat_str(a.as_str(), " bytes, wrote ");
                let c = concat_str(b.as_str(), u64_to_decimal(written).as_str());
                let m = concat_str(c.as_str(), " bytes");
                Err(AppError::io(m.as_str()))
            } else {
                Ok(())
            }
        },
        None => Ok(()),
    }
}

} // verus!
