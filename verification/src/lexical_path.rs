//! Lexical path handling (Unix separators), without touching the file system:
//! the components of a path, joining, `.`/`..` resolution and the checks that
//! keep a path inside a root directory.
//!
//! Components are written as character sequences: `/` stands for the root,
//! `.` for a leading current-directory marker, `..` for a parent step, and
//! anything else is a normal name.

use vstd::prelude::*;

use crate::archive_path::{is_dot, is_dotdot, keep_parts};
use crate::error::{detail_payload, AppError, ErrorKind};
use crate::text::{
    chars_of, join_char, split_char, split_char_vec, starts_with, starts_with_vec,
    string_from_chars, trim_start_char, trim_start_char_vec,
};

verus! {

pub open spec fn root_token() -> Seq<char> {
    seq!['/']
}

/// `Path::components` of a Unix path.
pub open spec fn path_components(p: Seq<char>) -> Seq<Seq<char>> {
    let parts = split_char(p, '/');
    let head = if p.len() > 0 && p[0] == '/' {
        seq![root_token()]
    } else if is_dot(parts[0]) {
        seq![seq!['.']]
    } else {
        Seq::empty()
    };
    head + keep_parts(parts)
}

/// `PathBuf::join`: an absolute `rel` replaces `base`; otherwise a separator
/// is inserted when `base` is non-empty and does not already end with one.
pub open spec fn join_path(base: Seq<char>, rel: Seq<char>) -> Seq<char> {
    if rel.len() > 0 && rel[0] == '/' {
        rel
    } else if base.len() > 0 && base.last() != '/' {
        base + seq!['/'] + rel
    } else {
        base + rel
    }
}

/// One step of resolving components: the root resets, `.` is skipped, `..`
/// drops the last name when there is one, a name is appended.
pub open spec fn norm_step(st: (bool, Seq<Seq<char>>), t: Seq<char>) -> (bool, Seq<Seq<char>>) {
    if t == root_token() {
        (true, Seq::empty())
    } else if is_dot(t) {
        st
    } else if is_dotdot(t) {
        if st.1.len() > 0 {
            (st.0, st.1.drop_last())
        } else {
            st
        }
    } else {
        (st.0, st.1.push(t))
    }
}

/// Resolution of a component list: whether the result is rooted, and its names.
pub open spec fn normalize_tokens(ts: Seq<Seq<char>>) -> (bool, Seq<Seq<char>>)
    decreases ts.len(),
{
    if ts.len() == 0 {
        (false, Seq::empty())
    } else {
        norm_step(normalize_tokens(ts.drop_last()), ts.last())
    }
}

/// Like [`normalize_tokens`], but a `..` with nothing to drop on a relative
/// path is an escape (`None`).
pub open spec fn resolve_tokens(ts: Seq<Seq<char>>) -> Option<(bool, Seq<Seq<char>>)>
    decreases ts.len(),
{
    if ts.len() == 0 {
        Some((false, Seq::empty()))
    } else {
        match resolve_tokens(ts.drop_last()) {
            None => None,
            Some(st) => if is_dotdot(ts.last()) && st.1.len() == 0 && !st.0 {
                None
            } else {
                Some(norm_step(st, ts.last()))
            },
        }
    }
}

/// The text of a resolved path.
pub open spec fn display(st: (bool, Seq<Seq<char>>)) -> Seq<char> {
    if st.0 {
        seq!['/'] + join_char(st.1, '/')
    } else {
        join_char(st.1, '/')
    }
}

/// `Path::starts_with`: the components of `base` are a prefix of those of `p`.
pub open spec fn path_starts_with(p: Seq<char>, base: Seq<char>) -> bool {
    path_components(base).len() <= path_components(p).len() && path_components(p).take(
        path_components(base).len() as int,
    ) == path_components(base)
}

fn vec_is(p: &Vec<char>, a: char, b: Option<char>) -> (r: bool)
    ensures
        r == (match b {
            None => p@ == seq![a],
            Some(c) => p@ == seq![a, c],
        }),
{
    match b {
        None => {
            let r = p.len() == 1 && p[0] == a;
            if r {
                assert(p@ =~= seq![a]);
            }
            r
        },
        Some(c) => {
            let r = p.len() == 2 && p[0] == a && p[1] == c;
            if r {
                assert(p@ =~= seq![a, c]);
            }
            r
        },
    }
}

pub open spec fn vecs_view(v: Seq<Vec<char>>) -> Seq<Seq<char>> {
    v.map_values(|p: Vec<char>| p@)
}

/// The components of `p`.
pub fn components_of(p: &Vec<char>) -> (r: Vec<Vec<char>>)
    ensures
        vecs_view(r@) == path_components(p@),
{
    let parts = split_char_vec(p, '/');
    let ghost pv = vecs_view(parts@);
    proof {
        assert(split_char(p@, '/').len() > 0);
        assert(pv[0] == parts@[0]@);
    }
    let mut out: Vec<Vec<char>> = Vec::new();
    if p.len() > 0 && p[0] == '/' {
        let mut t: Vec<char> = Vec::new();
        t.push('/');
        assert(t@ =~= root_token());
        out.push(t);
    } else if vec_is(&parts[0], '.', None) {
        let mut t: Vec<char> = Vec::new();
        t.push('.');
        assert(t@ =~= seq!['.']);
        out.push(t);
    }
    let ghost head = vecs_view(out@);
    assert(head == path_components(p@).take(head.len() as int)) by {
        assert(vecs_view(out@) =~= (if p@.len() > 0 && p@[0] == '/' {
            seq![root_token()]
        } else if is_dot(pv[0]) {
            seq![seq!['.']]
        } else {
            Seq::<Seq<char>>::empty()
        }));
    }
    let mut k: usize = 0;
    while k < parts.len()
        invariant
            pv == vecs_view(parts@),
            pv == split_char(p@, '/'),
            k <= parts@.len(),
            vecs_view(out@) == head + keep_parts(pv.take(k as int)),
            head + keep_parts(pv) == path_components(p@),
        decreases parts.len() - k,
    {
        assert(pv.take(k as int + 1).drop_last() =~= pv.take(k as int));
        assert(pv[k as int] == parts@[k as int]@);
        if parts[k].len() != 0 && !vec_is(&parts[k], '.', None) {
            let ghost before = vecs_view(out@);
            out.push(parts[k].clone());
            assert(vecs_view(out@) =~= before.push(pv[k as int]));
            assert(keep_parts(pv.take(k as int + 1)) == keep_parts(pv.take(k as int)).push(
                pv[k as int],
            ));
            assert(vecs_view(out@) =~= head + keep_parts(pv.take(k as int + 1)));
        }
        k = k + 1;
    }
    assert(pv.take(k as int) =~= pv);
    out
}

/// Resolves `.` and `..` in `p` lexically; `..` never climbs above the root
/// (or above the start of a relative path).
pub fn normalize_components(ts: &Vec<Vec<char>>) -> (r: (bool, Vec<Vec<char>>))
    ensures
        (r.0, vecs_view(r.1@)) == normalize_tokens(vecs_view(ts@)),
{
    let ghost tv = vecs_view(ts@);
    let mut root = false;
    let mut segs: Vec<Vec<char>> = Vec::new();
    let mut k: usize = 0;
    while k < ts.len()
        invariant
            tv == vecs_view(ts@),
            k <= ts@.len(),
            (root, vecs_view(segs@)) == normalize_tokens(tv.take(k as int)),
        decreases ts.len() - k,
    {
        assert(tv.take(k as int + 1).drop_last() =~= tv.take(k as int));
        assert(tv[k as int] == ts@[k as int]@);
        let t = &ts[k];
        if vec_is(t, '/', None) {
            root = true;
            segs = Vec::new();
            assert(vecs_view(segs@) =~= Seq::<Seq<char>>::empty());
        } else if vec_is(t, '.', None) {
        } else if vec_is(t, '.', Some('.')) {
            if segs.len() > 0 {
                let ghost before = vecs_view(segs@);
                segs.pop();
                assert(vecs_view(segs@) =~= before.drop_last());
            }
        } else {
            let ghost before = vecs_view(segs@);
            segs.push(t.clone());
            assert(vecs_view(segs@) =~= before.push(tv[k as int]));
        }
        k = k + 1;
    }
    assert(tv.take(k as int) =~= tv);
    (root, segs)
}

/// Like [`normalize_components`], but `None` when a `..` would climb above
/// the start of a relative path.
pub fn resolve_components(ts: &Vec<Vec<char>>) -> (r: Option<(bool, Vec<Vec<char>>)>)
    ensures
        match r {
            Some((root, segs)) => resolve_tokens(vecs_view(ts@)) == Some((root, vecs_view(segs@))),
            None => resolve_tokens(vecs_view(ts@)) is None,
        },
{
    let ghost tv = vecs_view(ts@);
    let mut root = false;
    let mut segs: Vec<Vec<char>> = Vec::new();
    let mut k: usize = 0;
    while k < ts.len()
        invariant
            tv == vecs_view(ts@),
            k <= ts@.len(),
            resolve_tokens(tv.take(k as int)) == Some((root, vecs_view(segs@))),
        decreases ts.len() - k,
    {
        assert(tv.take(k as int + 1).drop_last() =~= tv.take(k as int));
        assert(tv[k as int] == ts@[k as int]@);
        let t = &ts[k];
        if vec_is(t, '/', None) {
            root = true;
            segs = Vec::new();
            assert(vecs_view(segs@) =~= Seq::<Seq<char>>::empty());
        } else if vec_is(t, '.', None) {
        } else if vec_is(t, '.', Some('.')) {
            if segs.len() > 0 {
                let ghost before = vecs_view(segs@);
                segs.pop();
                assert(vecs_view(segs@) =~= before.drop_last());
            } else if !root {
                proof {
                    lemma_resolve_none_stays(tv, k as int + 1);
                }
                return None;
            }
        } else {
            let ghost before = vecs_view(segs@);
            segs.push(t.clone());
            assert(vecs_view(segs@) =~= before.push(tv[k as int]));
        }
        k = k + 1;
    }
    assert(tv.take(k as int) =~= tv);
    Some((root, segs))
}

proof fn lemma_resolve_none_stays(ts: Seq<Seq<char>>, k: int)
    requires
        0 <= k <= ts.len(),
        resolve_tokens(ts.take(k)) is None,
    ensures
        resolve_tokens(ts) is None,
    decreases ts.len() - k,
{
    if k < ts.len() {
        assert(ts.take(k + 1).drop_last() =~= ts.take(k));
        lemma_resolve_none_stays(ts, k + 1);
    } else {
        assert(ts.take(k) =~= ts);
    }
}

/// The text of a resolved path.
pub fn display_path(root: bool, segs: &Vec<Vec<char>>) -> (r: Vec<char>)
    ensures
        r@ == display((root, vecs_view(segs@))),
{
    let ghost sv = vecs_view(segs@);
    let mut out: Vec<char> = Vec::new();
    let mut k: usize = 0;
    while k < segs.len()
        invariant
            sv == vecs_view(segs@),
            k <= segs@.len(),
            out@ == join_char(sv.take(k as int), '/'),
        decreases segs.len() - k,
    {
        assert(sv.take(k as int + 1).drop_last() =~= sv.take(k as int));
        assert(sv[k as int] == segs@[k as int]@);
        let ghost before = out@;
        if k > 0 {
            out.push('/');
        }
        crate::text::append_vec(&mut out, &segs[k]);
        assert(out@ =~= join_char(sv.take(k as int + 1), '/'));
        k = k + 1;
    }
    assert(sv.take(k as int) =~= sv);
    if root {
        let mut r = vec!['/'];
        crate::text::append_vec(&mut r, &out);
        r
    } else {
        out
    }
}

/// `base.join(rel)`.
pub fn join_path_vec(base: &Vec<char>, rel: &Vec<char>) -> (r: Vec<char>)
    ensures
        r@ == join_path(base@, rel@),
{
    if rel.len() > 0 && rel[0] == '/' {
        return rel.clone();
    }
    let mut r = base.clone();
    if base.len() > 0 && base[base.len() - 1] != '/' {
        r.push('/');
    }
    crate::text::append_vec(&mut r, rel);
    r
}

/// Whether the components of `base` are a prefix of those of `p`.
pub fn starts_with_path(p: &Vec<char>, base: &Vec<char>) -> (b: bool)
    ensures
        b == path_starts_with(p@, base@),
{
    let pc = components_of(p);
    let bc = components_of(base);
    if bc.len() > pc.len() {
        return false;
    }
    let mut k: usize = 0;
    while k < bc.len()
        invariant
            k <= bc@.len() <= pc@.len(),
            vecs_view(pc@) == path_components(p@),
            vecs_view(bc@) == path_components(base@),
            forall|j: int| 0 <= j < k ==> vecs_view(pc@)[j] == vecs_view(bc@)[j],
        decreases bc.len() - k,
    {
        if !crate::text::eq_vec(&pc[k], &bc[k]) {
            assert(vecs_view(pc@).take(bc@.len() as int)[k as int] != vecs_view(bc@)[k as int]);
            assert(vecs_view(pc@).take(bc@.len() as int) != vecs_view(bc@));
            return false;
        }
        k = k + 1;
    }
    assert(vecs_view(pc@).take(bc@.len() as int) =~= vecs_view(bc@));
    true
}

/// The outcome of joining a user-supplied relative path onto a root.
pub open spec fn safe_join_spec(root: Seq<char>, rel: Seq<char>) -> Option<Seq<char>> {
    let joined = join_path(root, trim_start_char(rel, '/'));
    let norm = normalize_tokens(path_components(joined));
    let norm_root = normalize_tokens(path_components(root));
    let escaped = norm != norm_root && !starts_with(display(norm), display(norm_root) + seq!['/']);
    if escaped {
        None
    } else {
        Some(display(norm))
    }
}

pub open spec fn escape_message() -> Seq<char> {
    "路径越界（禁止访问 core 目录之外）"@
}

/// Join `root` with a user-supplied relative `rel`, refusing anything that
/// escapes `root` by its text. Returns the normalized path; what it names on
/// disk is settled by [`safe_join`].
pub fn lexical_join(root: &str, rel: &str) -> (r: Result<String, AppError>)
    ensures
        r matches Ok(p) ==> (p@ == display(normalize_tokens(path_components(root@))) || starts_with(
            p@,
            display(normalize_tokens(path_components(root@))) + seq!['/'],
        )),
        match r {
            Ok(p) => safe_join_spec(root@, rel@) == Some(p@),
            Err(e) => safe_join_spec(root@, rel@) is None && e@.0 == ErrorKind::Other && e@.1
                == detail_payload(escape_message()),
        },
{
    let root_v = chars_of(root);
    let rel_v = trim_start_char_vec(&chars_of(rel), '/');
    let joined = join_path_vec(&root_v, &rel_v);
    let (nr, ns) = normalize_components(&components_of(&joined));
    let (rr, rs) = normalize_components(&components_of(&root_v));
    let norm_text = display_path(nr, &ns);
    let mut root_prefix = display_path(rr, &rs);
    root_prefix.push('/');
    let same = nr == rr && eq_segs(&ns, &rs);
    let ghost norm = normalize_tokens(path_components(join_path(root@, trim_start_char(rel@, '/'))));
    let ghost norm_root = normalize_tokens(path_components(root@));
    assert(rel_v@ == trim_start_char(rel@, '/'));
    assert(joined@ == join_path(root@, trim_start_char(rel@, '/')));
    assert((nr, vecs_view(ns@)) == norm);
    assert((rr, vecs_view(rs@)) == norm_root);
    assert(norm_text@ == display(norm));
    assert(root_prefix@ == display(norm_root) + seq!['/']);
    assert(same == (norm == norm_root));
    let escaped = !same && !starts_with_vec(&norm_text, &root_prefix);
    if escaped {
        return Err(AppError::other("路径越界（禁止访问 core 目录之外）"));
    }
    Ok(string_from_chars(norm_text.as_slice()))
}

/// Join `root` with a user-supplied relative `rel` and keep the result
/// inside `root` on disk as well as by its text. `canonical_root` is `root`
/// with its symbolic links resolved, and `resolved` is the joined path (the
/// `Ok` value of [`lexical_join`]) with every symbolic link along it
/// resolved, as far as it exists. A path whose resolution leaves the
/// canonical root, such as one through a link that points elsewhere, is
/// refused as an escape.
pub fn safe_join(root: &str, rel: &str, canonical_root: &str, resolved: &str) -> (r: Result<
    String,
    AppError,
>)
    ensures
        r matches Ok(p) ==> (p@ == display(normalize_tokens(path_components(root@))) || starts_with(
            p@,
            display(normalize_tokens(path_components(root@))) + seq!['/'],
        )),
        r is Ok ==> path_starts_with(resolved@, canonical_root@),
        match r {
            Ok(p) => safe_join_spec(root@, rel@) == Some(p@) && path_starts_with(
                resolved@,
                canonical_root@,
            ),
            Err(e) => (safe_join_spec(root@, rel@) is None || !path_starts_with(
                resolved@,
                canonical_root@,
            )) && e@.0 == ErrorKind::Other && e@.1 == detail_payload(escape_message()),
        },
{
    let p = lexical_join(root, rel)?;
    if !starts_with_path(&chars_of(resolved), &chars_of(canonical_root)) {
        return Err(AppError::other("路径越界（禁止访问 core 目录之外）"));
    }
    Ok(p)
}

/// Component lists are equal.
pub fn eq_segs(a: &Vec<Vec<char>>, b: &Vec<Vec<char>>) -> (r: bool)
    ensures
        r == (vecs_view(a@) == vecs_view(b@)),
{
    if a.len() != b.len() {
        assert(vecs_view(a@).len() != vecs_view(b@).len());
        return false;
    }
    let mut k: usize = 0;
    while k < a.len()
        invariant
            a@.len() == b@.len(),
            k <= a@.len(),
            forall|j: int| 0 <= j < k ==> vecs_view(a@)[j] == vecs_view(b@)[j],
        decreases a.len() - k,
    {
        if !crate::text::eq_vec(&a[k], &b[k]) {
            assert(vecs_view(a@)[k as int] != vecs_view(b@)[k as int]);
            return false;
        }
        k = k + 1;
    }
    assert(vecs_view(a@) =~= vecs_view(b@));
    true
}

/// The path with `.` and `..` resolved lexically; `None` when a `..` climbs
/// above the start of a relative path.
pub fn resolve_lexically(path: &str) -> (r: Option<String>)
    ensures
        match r {
            Some(p) => resolve_tokens(path_components(path@)) matches Some(st) && p@ == display(st),
            None => resolve_tokens(path_components(path@)) is None,
        },
{
    match resolve_components(&components_of(&chars_of(path))) {
        Some((root, segs)) => Some(string_from_chars(display_path(root, &segs).as_slice())),
        None => None,
    }
}

/// The candidate location of an archive path below `base`: an absolute path
/// stands for itself, a relative one is joined onto `base`.
pub fn candidate_path(base: &str, path: &str) -> (r: String)
    ensures
        r@ == join_path(base@, path@),
{
    string_from_chars(join_path_vec(&chars_of(base), &chars_of(path)).as_slice())
}

pub open spec fn escaping_archive_message() -> Seq<char> {
    "archive contains path escaping destination — not a legitimate archive"@
}

/// Refuse a resolved archive path that does not lie below the resolved
/// destination directory.
pub fn ensure_within_dir(canonical_base: &str, canonical_candidate: &str) -> (r: Result<(), AppError>)
    ensures
        r is Ok <==> path_starts_with(canonical_candidate@, canonical_base@),
        r matches Err(e) ==> e@.0 == ErrorKind::Io && e@.1 == detail_payload(
            escaping_archive_message(),
        ),
{
    if starts_with_path(&chars_of(canonical_candidate), &chars_of(canonical_base)) {
        Ok(())
    } else {
        Err(AppError::io("archive contains path escaping destination — not a legitimate archive"))
    }
}

} // verus!
