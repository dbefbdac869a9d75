//! Archive entry paths: which entry names are safe to extract, the common
//! top-level directory of an archive, and link-target checks.
//!
//! A relative path is held as its list of normal components: each is
//! non-empty, is neither `.` nor `..`, and holds no `/`.

use vstd::prelude::*;
use vstd::string::*;

use crate::error::{detail_payload, AppError, ErrorKind};
use crate::text::{
    chars_of, contains_char_vec, is_ascii_alpha, is_control, join_char, replace_char, replace_char_vec,
    split_char, split_char_vec, starts_with, string_from_chars, str_to_string,
};

verus! {

pub open spec fn strs_view(v: Seq<String>) -> Seq<Seq<char>> {
    v.map_values(|s: String| s@)
}

pub open spec fn is_dot(p: Seq<char>) -> bool {
    p == seq!['.']
}

pub open spec fn is_dotdot(p: Seq<char>) -> bool {
    p == seq!['.', '.']
}

/// The pieces that name a component: empty pieces and `.` are dropped.
pub open spec fn keep_parts(parts: Seq<Seq<char>>) -> Seq<Seq<char>>
    decreases parts.len(),
{
    if parts.len() == 0 {
        Seq::empty()
    } else {
        let r = keep_parts(parts.drop_last());
        if parts.last().len() == 0 || is_dot(parts.last()) {
            r
        } else {
            r.push(parts.last())
        }
    }
}

/// A normal component: non-empty, not `.` or `..`, no separator.
pub open spec fn normal_component(p: Seq<char>) -> bool {
    p.len() > 0 && !is_dot(p) && !is_dotdot(p) && !p.contains('/')
}

pub open spec fn normal_components(s: Seq<Seq<char>>) -> bool {
    forall|i: int| 0 <= i < s.len() ==> normal_component(#[trigger] s[i])
}

/// The first byte is an ASCII letter and the second a colon (`C:`).
pub open spec fn drive_prefix(p: Seq<char>) -> bool {
    p.len() >= 2 && is_ascii_alpha(p[0]) && p[1] == ':'
}

/// The relative path an archive entry name denotes, if it is safe: no control
/// characters, not rooted, no drive prefix, no `..`, at least one component.
/// Backslashes count as separators.
pub open spec fn entry_rel_path(raw: Seq<char>) -> Option<Seq<Seq<char>>> {
    let n = replace_char(raw, '\\', '/');
    let parts = split_char(n, '/');
    if exists|i: int| 0 <= i < raw.len() && is_control(raw[i]) {
        None
    } else if parts[0].len() == 0 || drive_prefix(n) {
        None
    } else if exists|i: int| 0 <= i < parts.len() && is_dotdot(parts[i]) {
        None
    } else if keep_parts(parts).len() == 0 {
        None
    } else {
        Some(keep_parts(parts))
    }
}

fn vec_is_dot(p: &Vec<char>) -> (b: bool)
    ensures
        b == is_dot(p@),
{
    let b = p.len() == 1 && p[0] == '.';
    if b {
        assert(p@ =~= seq!['.']);
    }
    b
}

fn vec_is_dotdot(p: &Vec<char>) -> (b: bool)
    ensures
        b == is_dotdot(p@),
{
    let b = p.len() == 2 && p[0] == '.' && p[1] == '.';
    if b {
        assert(p@ =~= seq!['.', '.']);
    }
    b
}

proof fn lemma_keep_parts_normal(parts: Seq<Seq<char>>)
    requires
        forall|i: int| 0 <= i < parts.len() ==> !(#[trigger] parts[i]).contains('/') && !is_dotdot(
            parts[i],
        ),
    ensures
        normal_components(keep_parts(parts)),
    decreases parts.len(),
{
    if parts.len() > 0 {
        lemma_keep_parts_normal(parts.drop_last());
        assert(parts.last() == parts[parts.len() - 1]);
    }
}

proof fn lemma_split_no_sep(s: Seq<char>, c: char)
    ensures
        forall|i: int| 0 <= i < split_char(s, c).len() ==> !(#[trigger] split_char(s, c)[i]).contains(c),
    decreases s.len(),
{
    let i = crate::text::find_char(s, c);
    crate::text::lemma_find_char_bounds(s, c);
    if i < s.len() {
        lemma_split_no_sep(s.subrange(i + 1, s.len() as int), c);
        let head = s.subrange(0, i);
        assert forall|k: int| 0 <= k < split_char(s, c).len() implies !(#[trigger] split_char(
            s,
            c,
        )[k]).contains(c) by {
            if k == 0 {
                if head.contains(c) {
                    let j = choose|j: int| 0 <= j < head.len() && head[j] == c;
                    crate::text::lemma_find_char_first(s, c, i);
                    assert(s[j] == c);
                }
            } else {
                assert(split_char(s, c)[k] == split_char(s.subrange(i + 1, s.len() as int), c)[k
                    - 1]);
            }
        }
    } else {
        assert forall|k: int| 0 <= k < split_char(s, c).len() implies !(#[trigger] split_char(
            s,
            c,
        )[k]).contains(c) by {
            if s.contains(c) {
                let j = choose|j: int| 0 <= j < s.len() && s[j] == c;
                crate::text::lemma_find_char_first(s, c, i);
            }
        }
    }
}

/// Convert an archive entry name to its relative path, rejecting empty,
/// rooted, drive-prefixed, traversing or control-character-containing names.
pub fn parse_entry_rel_path(raw: &str) -> (r: Option<Vec<String>>)
    ensures
        match r {
            Some(v) => entry_rel_path(raw@) == Some(strs_view(v@)),
            None => entry_rel_path(raw@) is None,
        },
        r matches Some(v) ==> normal_components(strs_view(v@)),
{
    let cs = chars_of(raw);
    let mut i: usize = 0;
    while i < cs.len()
        invariant
            cs@ == raw@,
            i <= cs@.len(),
            forall|j: int| 0 <= j < i ==> !is_control(cs@[j]),
        decreases cs.len() - i,
    {
        let c = cs[i];
        if c <= '\u{1f}' || ('\u{7f}' <= c && c <= '\u{9f}') {
            assert(is_control(raw@[i as int]));
            return None;
        }
        i = i + 1;
    }
    assert(!(exists|j: int| 0 <= j < raw@.len() && is_control(raw@[j])));
    let n = replace_char_vec(&cs, '\\', '/');
    let parts = split_char_vec(&n, '/');
    let ghost pv = parts@.map_values(|p: Vec<char>| p@);
    assert(pv.len() > 0) by {
        crate::text::lemma_find_char_bounds(n@, '/');
    }
    assert(parts@[0]@ == pv[0]);
    let drive = n.len() >= 2 && (('a' <= n[0] && n[0] <= 'z') || ('A' <= n[0] && n[0] <= 'Z'))
        && n[1] == ':';
    if parts[0].len() == 0 || drive {
        return None;
    }
    let mut out: Vec<String> = Vec::new();
    let mut k: usize = 0;
    while k < parts.len()
        invariant
            pv == parts@.map_values(|p: Vec<char>| p@),
            pv == split_char(replace_char(raw@, '\\', '/'), '/'),
            !(exists|j: int| 0 <= j < raw@.len() && is_control(raw@[j])),
            pv[0].len() != 0,
            !drive_prefix(replace_char(raw@, '\\', '/')),
            k <= parts@.len(),
            strs_view(out@) == keep_parts(pv.take(k as int)),
            forall|j: int| 0 <= j < k ==> !is_dotdot(#[trigger] pv[j]),
        decreases parts.len() - k,
    {
        assert(pv.take(k as int + 1).drop_last() =~= pv.take(k as int));
        assert(pv[k as int] == parts@[k as int]@);
        if vec_is_dotdot(&parts[k]) {
            assert(is_dotdot(pv[k as int]));
            return None;
        }
        if parts[k].len() != 0 && !vec_is_dot(&parts[k]) {
            let ghost before = out@;
            let s = string_from_chars(parts[k].as_slice());
            out.push(s);
            assert(strs_view(out@) =~= strs_view(before).push(pv[k as int]));
        }
        k = k + 1;
    }
    assert(pv.take(k as int) =~= pv);
    if out.len() == 0 {
        return None;
    }
    proof {
        lemma_split_no_sep(n@, '/');
        lemma_keep_parts_normal(pv);
    }
    Some(out)
}

/// `path` with every backslash turned into a slash.
pub fn normalize_entry_path(path: &str) -> (r: String)
    ensures
        r@ == replace_char(path@, '\\', '/'),
{
    let cs = chars_of(path);
    let n = replace_char_vec(&cs, '\\', '/');
    string_from_chars(n.as_slice())
}

/// Whether `path` starts with an ASCII letter followed by a colon.
pub fn has_windows_drive_prefix(path: &str) -> (b: bool)
    ensures
        b == drive_prefix(path@),
{
    let n = path.unicode_len();
    if n < 2 {
        return false;
    }
    let c0 = path.get_char(0);
    let c1 = path.get_char(1);
    (('a' <= c0 && c0 <= 'z') || ('A' <= c0 && c0 <= 'Z')) && c1 == ':'
}

/// The part of `path` before its first `/`.
pub fn first_segment(path: &str) -> (r: Option<String>)
    ensures
        r matches Some(s) && s@ == split_char(path@, '/')[0],
{
    let cs = chars_of(path);
    let parts = split_char_vec(&cs, '/');
    proof {
        crate::text::lemma_find_char_bounds(path@, '/');
        assert(split_char(cs@, '/').len() > 0);
        assert(parts@.map_values(|p: Vec<char>| p@).len() == parts@.len());
        assert(parts@.map_values(|p: Vec<char>| p@)[0] == parts@[0]@);
    }
    Some(string_from_chars(parts[0].as_slice()))
}

pub open spec fn str_opt_view(o: Option<&str>) -> Option<Seq<char>> {
    match o {
        Some(s) => Some(s@),
        None => None,
    }
}

pub open spec fn opt_view(o: Option<String>) -> Option<Seq<char>> {
    match o {
        Some(s) => Some(s@),
        None => None,
    }
}

/// Scan state: the candidate top directory, whether a nested entry was seen,
/// and whether all entries so far agree.
pub type TopDirScan = (Option<Seq<char>>, bool, bool);

/// One step of the common-top-directory scan over an entry path.
pub open spec fn scan_step(st: TopDirScan, path: Seq<char>) -> TopDirScan {
    if !st.2 {
        st
    } else {
        let n = replace_char(path, '\\', '/');
        let first = split_char(n, '/')[0];
        if first.len() == 0 {
            (st.0, st.1, false)
        } else {
            let nested = st.1 || n.contains('/');
            match st.0 {
                None => (Some(first), nested, true),
                Some(e) => (st.0, nested, e == first),
            }
        }
    }
}

/// The scan over every entry that is a safe relative path, in order.
pub open spec fn scan_all(paths: Seq<Seq<char>>) -> TopDirScan
    decreases paths.len(),
{
    if paths.len() == 0 {
        (None, false, true)
    } else {
        let st = scan_all(paths.drop_last());
        match entry_rel_path(paths.last()) {
            Some(segs) => scan_step(st, join_char(segs, '/')),
            None => st,
        }
    }
}

pub open spec fn finalize_spec(st: TopDirScan) -> Option<Seq<char>> {
    if st.2 && st.1 {
        st.0
    } else {
        None
    }
}

/// Feed one entry path to the common-top-directory scan.
pub fn scan_common_top_dir(
    path: &str,
    candidate: &mut Option<String>,
    saw_nested: &mut bool,
    valid: &mut bool,
)
    ensures
        (opt_view(*final(candidate)), *final(saw_nested), *final(valid)) == scan_step(
            (opt_view(*old(candidate)), *old(saw_nested), *old(valid)),
            path@,
        ),
{
    if !*valid {
        return;
    }
    let cs = chars_of(path);
    let n = replace_char_vec(&cs, '\\', '/');
    let parts = split_char_vec(&n, '/');
    proof {
        assert(split_char(n@, '/').len() > 0);
        assert(parts@.map_values(|p: Vec<char>| p@)[0] == parts@[0]@);
    }
    if parts[0].len() == 0 {
        *valid = false;
        return;
    }
    if contains_char_vec(&n, '/') {
        *saw_nested = true;
    }
    match candidate {
        None => {
            *candidate = Some(string_from_chars(parts[0].as_slice()));
        },
        Some(existing) => {
            if !crate::text::eq_vec(&chars_of(existing.as_str()), &parts[0]) {
                *valid = false;
            }
        },
    }
}

/// The common top directory once the scan is over: only when every entry
/// agreed and at least one entry lies below it.
pub fn finalize_common_top_dir(candidate: Option<String>, saw_nested: bool, valid: bool) -> (r:
    Option<String>)
    ensures
        opt_view(r) == finalize_spec((opt_view(candidate), saw_nested, valid)),
{
    if valid && saw_nested {
        candidate
    } else {
        None
    }
}

/// Components joined with `/`.
pub fn join_segments(v: &Vec<String>) -> (r: String)
    ensures
        r@ == join_char(strs_view(v@), '/'),
{
    join_with(v, '/')
}

/// The strings joined with a separator character.
pub fn join_with(v: &Vec<String>, sep: char) -> (r: String)
    ensures
        r@ == join_char(strs_view(v@), sep),
{
    let ghost sv = strs_view(v@);
    let mut out: Vec<char> = Vec::new();
    let mut k: usize = 0;
    while k < v.len()
        invariant
            sv == strs_view(v@),
            k <= v@.len(),
            out@ == join_char(sv.take(k as int), sep),
        decreases v.len() - k,
    {
        assert(sv.take(k as int + 1).drop_last() =~= sv.take(k as int));
        assert(sv[k as int] == v@[k as int]@);
        if k > 0 {
            out.push(sep);
        }
        crate::text::append_vec(&mut out, &chars_of(v[k].as_str()));
        assert(out@ =~= join_char(sv.take(k as int + 1), sep));
        k = k + 1;
    }
    assert(sv.take(k as int) =~= sv);
    string_from_chars(out.as_slice())
}

/// The directory every entry of an archive lives under, if there is one.
pub fn detect_common_top_dir(paths: &Vec<String>) -> (r: Option<String>)
    ensures
        opt_view(r) == finalize_spec(scan_all(strs_view(paths@))),
{
    let ghost pv = strs_view(paths@);
    let mut candidate: Option<String> = None;
    let mut saw_nested = false;
    let mut valid = true;
    let mut k: usize = 0;
    while k < paths.len()
        invariant
            pv == strs_view(paths@),
            k <= paths@.len(),
            (opt_view(candidate), saw_nested, valid) == scan_all(pv.take(k as int)),
        decreases paths.len() - k,
    {
        assert(pv.take(k as int + 1).drop_last() =~= pv.take(k as int));
        assert(pv[k as int] == paths@[k as int]@);
        if let Some(relative) = parse_entry_rel_path(paths[k].as_str()) {
            let s = join_segments(&relative);
            scan_common_top_dir(s.as_str(), &mut candidate, &mut saw_nested, &mut valid);
        }
        k = k + 1;
    }
    assert(pv.take(k as int) =~= pv);
    finalize_common_top_dir(candidate, saw_nested, valid)
}

/// `Path::strip_prefix(top)` on a relative path given by its normal
/// components, with an empty result counting as no path.
pub open spec fn strip_spec(rel: Seq<Seq<char>>, top: Option<Seq<char>>) -> Option<Seq<Seq<char>>> {
    match top {
        None => Some(rel),
        Some(t) => {
            let parts = split_char(t, '/');
            let ts = keep_parts(parts);
            if t.len() > 0 && t[0] == '/' {
                None
            } else if is_dot(parts[0]) {
                None
            } else if ts.len() <= rel.len() && rel.take(ts.len() as int) == ts {
                if rel.len() == ts.len() {
                    None
                } else {
                    Some(rel.skip(ts.len() as int))
                }
            } else {
                None
            }
        },
    }
}

/// Strip the common top-level directory from a relative path, if present.
pub fn strip_common_top_dir(relative: &Vec<String>, top_dir: Option<&str>) -> (r: Option<
    Vec<String>,
>)
    requires
        normal_components(strs_view(relative@)),
    ensures
        match r {
            Some(v) => strip_spec(strs_view(relative@), str_opt_view(top_dir)) == Some(
                strs_view(v@),
            ),
            None => strip_spec(strs_view(relative@), str_opt_view(top_dir)) is None,
        },
{
    let ghost rv = strs_view(relative@);
    let top = match top_dir {
        None => {
            let mut c: Vec<String> = Vec::new();
            let mut k: usize = 0;
            while k < relative.len()
                invariant
                    k <= relative@.len(),
                    rv == strs_view(relative@),
                    c@.len() == k,
                    strs_view(c@) == rv.take(k as int),
                decreases relative.len() - k,
            {
                let ghost before = strs_view(c@);
                c.push(relative[k].clone());
                assert(strs_view(c@)[k as int] == rv[k as int]);
                assert(strs_view(c@) =~= rv.take(k as int + 1));
                k = k + 1;
            }
            assert(rv.take(k as int) =~= rv);
            return Some(c);
        },
        Some(t) => t,
    };
    let tc = chars_of(top);
    if tc.len() > 0 && tc[0] == '/' {
        return None;
    }
    let parts = split_char_vec(&tc, '/');
    let ghost pv = parts@.map_values(|p: Vec<char>| p@);
    proof {
        assert(split_char(tc@, '/').len() > 0);
        assert(pv[0] == parts@[0]@);
    }
    if vec_is_dot(&parts[0]) {
        return None;
    }
    let ghost ts = keep_parts(pv);
    // Walk the top's pieces, matching each kept one against the next component.
    let mut m: usize = 0;
    let mut k: usize = 0;
    while k < parts.len()
        invariant
            pv == parts@.map_values(|p: Vec<char>| p@),
            k <= parts@.len(),
            m == keep_parts(pv.take(k as int)).len(),
            m <= relative@.len(),
            rv == strs_view(relative@),
            rv.take(m as int) == keep_parts(pv.take(k as int)),
            ts == keep_parts(pv),
            pv == split_char(tc@, '/'),
            str_opt_view(top_dir) == Some(tc@),
            !(tc@.len() > 0 && tc@[0] == '/'),
            !is_dot(pv[0]),
        decreases parts.len() - k,
    {
        assert(pv.take(k as int + 1).drop_last() =~= pv.take(k as int));
        assert(pv[k as int] == parts@[k as int]@);
        if parts[k].len() != 0 && !vec_is_dot(&parts[k]) {
            if m >= relative.len() {
                proof {
                    lemma_keep_parts_prefix_grows(pv, k as int + 1);
                    assert(keep_parts(pv.take(k as int + 1)).len() == m + 1);
                    assert(ts.len() > rv.len());
                }
                return None;
            }
            if !crate::text::eq_vec(&parts[k], &chars_of(relative[m].as_str())) {
                proof {
                    lemma_keep_parts_prefix_grows(pv, k as int + 1);
                    let kk = keep_parts(pv.take(k as int + 1));
                    assert(kk == keep_parts(pv.take(k as int)).push(pv[k as int]));
                    assert(kk.len() == m + 1);
                    assert(ts.take(m as int + 1)[m as int] == ts[m as int]);
                    assert(ts[m as int] == pv[k as int]);
                    assert(pv[k as int] != rv[m as int]);
                    if ts.len() <= rv.len() && rv.take(ts.len() as int) == ts {
                        assert(rv.take(ts.len() as int)[m as int] == rv[m as int]);
                    }
                }
                return None;
            }
            assert(rv.take(m as int + 1) =~= rv.take(m as int).push(rv[m as int]));
            m = m + 1;
        }
        k = k + 1;
    }
    assert(pv.take(k as int) =~= pv);
    if m == relative.len() {
        return None;
    }
    let mut out: Vec<String> = Vec::new();
    let mut j: usize = m;
    while j < relative.len()
        invariant
            m <= j <= relative@.len(),
            rv == strs_view(relative@),
            out@.len() == j - m,
            strs_view(out@) == rv.subrange(m as int, j as int),
        decreases relative.len() - j,
    {
        let ghost before = strs_view(out@);
        out.push(relative[j].clone());
        assert(strs_view(out@)[j - m] == rv[j as int]);
        assert(strs_view(out@) =~= rv.subrange(m as int, j as int + 1));
        j = j + 1;
    }
    assert(rv.subrange(m as int, j as int) =~= rv.skip(m as int));
    Some(out)
}

/// Keeping more pieces never shortens the kept list, and what was kept stays a prefix.
proof fn lemma_keep_parts_prefix_grows(parts: Seq<Seq<char>>, k: int)
    requires
        0 <= k <= parts.len(),
    ensures
        keep_parts(parts.take(k)).len() <= keep_parts(parts).len(),
        keep_parts(parts).take(keep_parts(parts.take(k)).len() as int) == keep_parts(parts.take(k)),
    decreases parts.len() - k,
{
    if k < parts.len() {
        lemma_keep_parts_prefix_grows(parts, k + 1);
        assert(parts.take(k + 1).drop_last() =~= parts.take(k));
        let a = keep_parts(parts.take(k));
        let b = keep_parts(parts.take(k + 1));
        assert(b.take(a.len() as int) =~= a);
        assert(keep_parts(parts).take(a.len() as int) =~= keep_parts(parts).take(b.len() as int).take(
            a.len() as int,
        ));
    } else {
        assert(parts.take(k) =~= parts);
        assert(keep_parts(parts).take(keep_parts(parts).len() as int) =~= keep_parts(parts));
    }
}

/// Why a link target is refused, if it is.
pub open spec fn link_target_problem(target: Seq<char>, kind: Seq<char>) -> Option<Seq<char>> {
    if target.len() == 0 {
        Some(kind + " target path is empty"@)
    } else if target[0] == '/' {
        Some("absolute "@ + kind + " targets are not allowed in archives"@)
    } else if drive_prefix(target) {
        Some(kind + " target uses unsupported Windows path prefix"@)
    } else {
        None
    }
}

/// Whether a path carries a Windows prefix: on this platform paths have no
/// prefix component, so this is the drive-letter form.
pub fn has_windows_path_prefix(path: &str) -> (b: bool)
    ensures
        b == drive_prefix(path@),
{
    has_windows_drive_prefix(path)
}

/// A link target inside an archive must be a non-empty relative path without
/// a Windows prefix.
pub fn validate_rel_link_target(target: &str, kind: &str) -> (r: Result<(), AppError>)
    ensures
        r is Ok <==> link_target_problem(target@, kind@) is None,
        r matches Err(e) ==> e@.0 == ErrorKind::Io && e@.1 == detail_payload(
            link_target_problem(target@, kind@)->0,
        ),
{
    if target.unicode_len() == 0 {
        let mut m = str_to_string(kind);
        m.append(" target path is empty");
        return Err(AppError::io(m.as_str()));
    }
    if target.get_char(0) == '/' {
        let mut m = str_to_string("absolute ");
        m.append(kind);
        m.append(" targets are not allowed in archives");
        return Err(AppError::io(m.as_str()));
    }
    if has_windows_path_prefix(target) {
        let mut m = str_to_string(kind);
        m.append(" target uses unsupported Windows path prefix");
        return Err(AppError::io(m.as_str()));
    }
    Ok(())
}

} // verus!
