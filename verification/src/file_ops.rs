//! The file manager's own bookkeeping: the order in which a directory
//! listing is shown, and the table of chunked uploads in progress.

use vstd::prelude::*;

use crate::assoc::{distinct_keys, key_view, map_of, table_find, table_insert, table_take};
use crate::backup::{lemma_insert_multiset, lemma_seq_lt_transitive, lemma_seq_lt_trichotomy, seq_lt, str_less};
use crate::paths::join;
use crate::text::concat_str;

verus! {

/// One entry of a directory listing.
#[derive(Clone, Debug)]
pub struct FileEntry {
    pub name: String,
    pub is_dir: bool,
    /// Size in bytes; 0 for a directory.
    pub size: u64,
    /// Modification time in seconds since the Unix epoch, when known.
    pub modified: Option<u64>,
}

/// `a` is listed before `b`: directories first, then by name.
pub open spec fn entry_before(a: FileEntry, b: FileEntry) -> bool {
    (a.is_dir && !b.is_dir) || (a.is_dir == b.is_dir && seq_lt(a.name@, b.name@))
}

/// No entry of the listing should come before one shown ahead of it.
pub open spec fn in_listing_order(v: Seq<FileEntry>) -> bool {
    forall|i: int, j: int| 0 <= i < j < v.len() ==> !entry_before(#[trigger] v[j], #[trigger] v[i])
}

proof fn lemma_entry_before_transitive(a: FileEntry, b: FileEntry, c: FileEntry)
    requires
        entry_before(a, b),
        entry_before(b, c),
    ensures
        entry_before(a, c),
{
    if a.is_dir == b.is_dir && b.is_dir == c.is_dir {
        lemma_seq_lt_transitive(a.name@, b.name@, c.name@);
    }
}

proof fn lemma_entry_before_asymmetric(a: FileEntry, b: FileEntry)
    ensures
        !(entry_before(a, b) && entry_before(b, a)),
{
    lemma_seq_lt_trichotomy(a.name@, b.name@);
}

fn entry_listed_before(a: &FileEntry, b: &FileEntry) -> (r: bool)
    ensures
        r == entry_before(*a, *b),
{
    if a.is_dir != b.is_dir {
        a.is_dir
    } else {
        str_less(a.name.as_str(), b.name.as_str())
    }
}

/// The listing as shown: directories first, then files, each group by name
/// (a stable insertion sort).
pub fn sort_file_entries(v: Vec<FileEntry>) -> (r: Vec<FileEntry>)
    ensures
        in_listing_order(r@),
        r@.to_multiset() == v@.to_multiset(),
{
    broadcast use vstd::seq_lib::group_to_multiset_ensures;

    let ghost all = v@;
    let mut rest = v;
    let mut out: Vec<FileEntry> = Vec::new();
    let ghost mut k: int = 0;
    while rest.len() > 0
        invariant
            0 <= k <= all.len(),
            rest@ == all.subrange(k, all.len() as int),
            in_listing_order(out@),
            out@.to_multiset() == all.take(k).to_multiset(),
        decreases rest.len(),
    {
        let ghost rb = rest@;
        let x = rest.remove(0);
        proof {
            assert(x == rb[0]);
            assert(all.subrange(k, all.len() as int)[0] == all[k]);
            assert(rest@ =~= all.subrange(k + 1, all.len() as int));
            assert(all.take(k + 1) =~= all.take(k).push(all[k]));
        }
        let mut p: usize = 0;
        let mut stop = false;
        while p < out.len() && !stop
            invariant
                p <= out@.len(),
                forall|q: int| 0 <= q < p ==> !entry_before(x, #[trigger] out@[q]),
                stop ==> p < out@.len() && entry_before(x, out@[p as int]),
            decreases out.len() - p + (if stop { 0int } else { 1int }),
        {
            if entry_listed_before(&x, &out[p]) {
                stop = true;
            } else {
                p = p + 1;
            }
        }
        let ghost before = out@;
        proof {
            lemma_insert_multiset(before, p as int, x);
            let t = before.insert(p as int, x);
            assert forall|i: int, j: int| 0 <= i < j < t.len() implies !entry_before(
                #[trigger] t[j],
                #[trigger] t[i],
            ) by {
                if j < p {
                    assert(t[i] == before[i] && t[j] == before[j]);
                } else if j == p {
                    assert(t[j] == x && t[i] == before[i]);
                } else if i == p {
                    assert(t[i] == x && t[j] == before[j - 1]);
                    assert(stop);
                    let y = before[j - 1];
                    let z = before[p as int];
                    if entry_before(y, x) {
                        lemma_entry_before_transitive(y, x, z);
                        if j - 1 > p {
                            assert(!entry_before(before[j - 1], before[p as int]));
                        } else {
                            lemma_entry_before_asymmetric(y, z);
                        }
                    }
                } else if i < p {
                    assert(t[i] == before[i] && t[j] == before[j - 1]);
                } else {
                    assert(t[i] == before[i - 1] && t[j] == before[j - 1]);
                }
            }
        }
        out.insert(p, x);
        proof {
            all.take(k).to_multiset_ensures();
            assert(all.take(k).push(all[k]).to_multiset() =~= all.take(k).to_multiset().insert(
                all[k],
            ));
            k = k + 1;
        }
    }
    assert(all.take(k) =~= all);
    out
}

/// The name of a file inside an archive made of a selection: a selected
/// file keeps its own name; a file found inside a selected directory is
/// named by the directory's name, `/`, and its path below that directory.
pub fn compress_member_name(top: &str, rel_below: Option<&str>) -> (r: String)
    ensures
        r@ == match rel_below {
            Some(rel) => top@ + "/"@ + rel@,
            None => top@,
        },
{
    match rel_below {
        Some(rel) => {
            let mut r = concat_str(top, "/");
            r.append(rel);
            r
        },
        None => crate::text::str_to_string(top),
    }
}

/// An upload in progress: where the file goes, and the temporary file the
/// chunks are appended to until then.
#[derive(Debug)]
pub struct UploadSession {
    pub dest: String,
    pub tmp: String,
}

impl View for UploadSession {
    type V = (Seq<char>, Seq<char>);

    open spec fn view(&self) -> (Seq<char>, Seq<char>) {
        (self.dest@, self.tmp@)
    }
}

impl UploadSession {
    pub fn duplicate(&self) -> (r: Self)
        ensures
            r@ == self@,
    {
        UploadSession { dest: self.dest.clone(), tmp: self.tmp.clone() }
    }
}

/// The session of a new upload of `name` into `parent`: the temporary file
/// is named after the upload id inside `temp_dir`.
pub fn new_upload_session(parent: &str, name: &str, upload_id: &str, temp_dir: &str) -> (r:
    UploadSession)
    ensures
        r.dest@ == crate::lexical_path::join_path(parent@, name@),
        r.tmp@ == crate::lexical_path::join_path(temp_dir@, "astrbot_upload_"@ + upload_id@),
{
    let tmp_name = concat_str("astrbot_upload_", upload_id);
    UploadSession { dest: join(parent, name), tmp: join(temp_dir, tmp_name.as_str()) }
}

/// The uploads in progress, by upload id.
///
/// The map is kept as a list of pairs with distinct keys: vstd states what
/// `HashMap` lookups return only for key types it knows to hash and compare
/// by value (integers, `bool`), not for `String`, so the contracts here are
/// stated over this list and its view as a map.
pub struct UploadSessions {
    entries: Vec<(String, UploadSession)>,
}

impl UploadSessions {
    pub closed spec fn wf(&self) -> bool {
        distinct_keys(key_view(self.entries@))
    }

    /// Upload id to its session.
    pub closed spec fn view_map(&self) -> Map<Seq<char>, UploadSession> {
        map_of(key_view(self.entries@))
    }

    pub fn new() -> (r: Self)
        ensures
            r.wf(),
            r.view_map() == Map::<Seq<char>, UploadSession>::empty(),
    {
        let r = UploadSessions { entries: Vec::new() };
        assert(key_view(r.entries@) =~= Seq::empty());
        r
    }

    /// Records the session of a new upload (replacing one under the same id).
    pub fn register(&mut self, upload_id: &str, session: UploadSession)
        requires
            old(self).wf(),
        ensures
            final(self).wf(),
            final(self).view_map() == old(self).view_map().insert(upload_id@, session),
    {
        table_insert(&mut self.entries, upload_id, session);
    }

    /// The session of an upload, if it is in progress.
    pub fn lookup(&self, upload_id: &str) -> (r: Option<UploadSession>)
        requires
            self.wf(),
        ensures
            match r {
                Some(s) => self.view_map().dom().contains(upload_id@) && s@ == self.view_map()[upload_id@]@,
                None => !self.view_map().dom().contains(upload_id@),
            },
    {
        match table_find(&self.entries, upload_id) {
            Some(i) => Some(self.entries[i].1.duplicate()),
            None => None,
        }
    }

    /// Ends an upload: its session leaves the table and is handed back.
    pub fn finish(&mut self, upload_id: &str) -> (r: Option<UploadSession>)
        requires
            old(self).wf(),
        ensures
            final(self).wf(),
            final(self).view_map() == old(self).view_map().remove(upload_id@),
            match r {
                Some(s) => old(self).view_map().dom().contains(upload_id@) && s == old(self).view_map()[upload_id@],
                None => !old(self).view_map().dom().contains(upload_id@),
            },
    {
        match table_find(&self.entries, upload_id) {
            Some(i) => {
                let (_, s) = table_take(&mut self.entries, i);
                Some(s)
            },
            None => {
                assert(old(self).view_map().remove(upload_id@) =~= old(self).view_map());
                None
            },
        }
    }
}

/// An upload that was registered is handed back by `finish` as it was
/// registered, and a second `finish` of the same id finds nothing.
pub proof fn law_finish_after_register(
    before: Map<Seq<char>, UploadSession>,
    upload_id: Seq<char>,
    session: UploadSession,
)
    ensures
        before.insert(upload_id, session).dom().contains(upload_id),
        before.insert(upload_id, session)[upload_id] == session,
        !before.insert(upload_id, session).remove(upload_id).dom().contains(upload_id),
{
}

} // verus!
