//! Reading the Python build mirror's directory page: the `.tar.gz` assets
//! it links to, or, for a bare listing, the asset names among its words.

use vstd::prelude::*;
use vstd::string::*;

use crate::archive_path::strs_view;
use crate::component::{asset_candidate_spec, push_python_asset_candidate};
use crate::error::{detail_payload, AppError, ErrorKind};
use crate::text::{chars_of, find_char, find_char_vec, find_seq_vec, first_occurrence, is_ws, occurrence_from, string_from_chars, subvec, char_is_ws};

verus! {

/// The listing after one more entry: the asset it names is added unless
/// it is listed already.
pub open spec fn add_candidate(names: Seq<Seq<char>>, candidate: Seq<char>) -> Seq<Seq<char>> {
    match asset_candidate_spec(candidate) {
        Some(d) => if names.contains(d) {
            names
        } else {
            names.push(d)
        },
        None => names,
    }
}

/// The listing after the entries, in order.
pub open spec fn add_candidates(names: Seq<Seq<char>>, candidates: Seq<Seq<char>>) -> Seq<Seq<char>>
    decreases candidates.len(),
{
    if candidates.len() == 0 {
        names
    } else {
        add_candidates(add_candidate(names, candidates[0]), candidates.subrange(1, candidates.len() as int))
    }
}

pub proof fn lemma_occurrence_bounds(s: Seq<char>, p: Seq<char>, i: int)
    ensures
        occurrence_from(s, p, i) matches Some(j) ==> i <= j && j + p.len() <= s.len(),
    decreases s.len() + 1 - i,
{
    if !(i < 0 || i + p.len() > s.len()) && s.subrange(i, i + p.len()) != p {
        lemma_occurrence_bounds(s, p, i + 1);
    }
}

pub proof fn lemma_find_char_bound(s: Seq<char>, c: char)
    ensures
        0 <= find_char(s, c) <= s.len(),
    decreases s.len(),
{
    if s.len() > 0 && s[0] != c {
        lemma_find_char_bound(s.subrange(1, s.len() as int), c);
    }
}

/// The texts between each `marker` and the next `quote` after it, in order;
/// the scan stops at a marker with no closing quote.
pub open spec fn quoted_values(s: Seq<char>, marker: Seq<char>, quote: char) -> Seq<Seq<char>>
    decreases s.len(),
{
    if marker.len() == 0 {
        seq![]
    } else {
        match first_occurrence(s, marker) {
            None => seq![],
            Some(start) => {
                proof {
                    lemma_occurrence_bounds(s, marker, 0);
                }
                let frag = s.subrange(start + marker.len(), s.len() as int);
                let end = find_char(frag, quote);
                proof {
                    lemma_find_char_bound(frag, quote);
                }
                if end >= frag.len() {
                    seq![]
                } else {
                    seq![frag.subrange(0, end)] + quoted_values(
                        frag.subrange(end + 1, frag.len() as int),
                        marker,
                        quote,
                    )
                }
            },
        }
    }
}

/// Length of the run of non-whitespace characters at the start of `s`.
pub open spec fn word_len(s: Seq<char>) -> int
    decreases s.len(),
{
    if s.len() == 0 || is_ws(s[0]) {
        0
    } else {
        1 + word_len(s.subrange(1, s.len() as int))
    }
}

pub proof fn lemma_word_len_bound(s: Seq<char>)
    ensures
        0 <= word_len(s) <= s.len(),
        s.len() > 0 && !is_ws(s[0]) ==> word_len(s) >= 1,
    decreases s.len(),
{
    if s.len() > 0 && !is_ws(s[0]) {
        lemma_word_len_bound(s.subrange(1, s.len() as int));
    }
}

proof fn lemma_word_len_exact(s: Seq<char>, k: int)
    requires
        0 <= k <= s.len(),
        forall|m: int| 0 <= m < k ==> !is_ws(#[trigger] s[m]),
        k == s.len() || is_ws(s[k]),
    ensures
        word_len(s) == k,
    decreases k,
{
    if k > 0 {
        let t = s.subrange(1, s.len() as int);
        assert forall|m: int| 0 <= m < k - 1 implies !is_ws(#[trigger] t[m]) by {
            assert(t[m] == s[m + 1]);
        }
        if k < s.len() {
            assert(t[k - 1] == s[k]);
        }
        lemma_word_len_exact(t, k - 1);
    }
}

/// `str::split_whitespace`: the maximal runs of non-whitespace characters.
pub open spec fn words(s: Seq<char>) -> Seq<Seq<char>>
    decreases s.len(),
{
    if s.len() == 0 {
        seq![]
    } else if is_ws(s[0]) {
        words(s.subrange(1, s.len() as int))
    } else {
        let k = word_len(s);
        proof {
            lemma_word_len_bound(s);
        }
        seq![s.subrange(0, k)] + words(s.subrange(k, s.len() as int))
    }
}

/// The assets a mirror page lists: those linked by `href="…"` and then
/// `href='…'`; when there are none, those among the page's words.
pub open spec fn mirror_asset_names(body: Seq<char>) -> Seq<Seq<char>> {
    let linked = add_candidates(
        add_candidates(seq![], quoted_values(body, "href=\u{22}"@, '\u{22}')),
        quoted_values(body, "href='"@, '\u{27}'),
    );
    if linked.len() > 0 {
        linked
    } else {
        add_candidates(seq![], words(body))
    }
}

proof fn lemma_add_candidates_front(names: Seq<Seq<char>>, c: Seq<char>, rest: Seq<Seq<char>>)
    ensures
        add_candidates(names, seq![c] + rest) == add_candidates(add_candidate(names, c), rest),
{
    let all = seq![c] + rest;
    assert(all[0] == c);
    assert(all.subrange(1, all.len() as int) =~= rest);
}

fn push_candidate(names: &mut Vec<String>, candidate: &Vec<char>)
    ensures
        strs_view(final(names)@) == add_candidate(strs_view(old(names)@), candidate@),
{
    let s = string_from_chars(candidate.as_slice());
    push_python_asset_candidate(names, s.as_str());
}

/// Adds the asset of every value quoted after `marker`.
fn add_quoted(body: &Vec<char>, marker: &str, quote: char, names: &mut Vec<String>)
    requires
        marker@.len() > 0,
    ensures
        strs_view(final(names)@) == add_candidates(
            strs_view(old(names)@),
            quoted_values(body@, marker@, quote),
        ),
{
    let m = chars_of(marker);
    let mut rest: Vec<char> = body.clone();
    assert(rest@ == body@);
    loop
        invariant
            m@ == marker@,
            m@.len() > 0,
            add_candidates(strs_view(names@), quoted_values(rest@, m@, quote)) == add_candidates(
                strs_view(old(names)@),
                quoted_values(body@, marker@, quote),
            ),
        decreases rest@.len(),
    {
        let start = match find_seq_vec(&rest, &m) {
            Some(st) => st,
            None => {
                assert(quoted_values(rest@, m@, quote) =~= seq![]);
                return;
            },
        };
        let rl = rest.len();
        let ml = m.len();
        assert(start + ml <= rl);
        let frag = subvec(&rest, start + ml, rl);
        let end = find_char_vec(&frag, quote);
        if end >= frag.len() {
            assert(quoted_values(rest@, m@, quote) =~= seq![]);
            return;
        }
        let value = subvec(&frag, 0, end);
        let next = subvec(&frag, end + 1, frag.len());
        proof {
            assert(quoted_values(rest@, m@, quote) == seq![value@] + quoted_values(next@, m@, quote));
            lemma_add_candidates_front(strs_view(names@), value@, quoted_values(next@, m@, quote));
        }
        push_candidate(names, &value);
        rest = next;
    }
}

/// Adds the asset of every word of the page.
fn add_words(body: &Vec<char>, names: &mut Vec<String>)
    ensures
        strs_view(final(names)@) == add_candidates(strs_view(old(names)@), words(body@)),
{
    let n = body.len();
    let mut i: usize = 0;
    assert(body@.subrange(0, n as int) =~= body@);
    while i < n
        invariant
            n == body@.len(),
            i <= n,
            add_candidates(strs_view(names@), words(body@.subrange(i as int, n as int)))
                == add_candidates(strs_view(old(names)@), words(body@)),
        decreases n - i,
    {
        let ghost t = body@.subrange(i as int, n as int);
        if char_is_ws(body[i]) {
            assert(t[0] == body@[i as int]);
            assert(t.subrange(1, t.len() as int) =~= body@.subrange(i + 1, n as int));
            i = i + 1;
        } else {
            let mut j: usize = i + 1;
            while j < n && !char_is_ws(body[j])
                invariant
                    n == body@.len(),
                    i < j <= n,
                    forall|m: int| i <= m < j ==> !is_ws(#[trigger] body@[m]),
                decreases n - j,
            {
                j = j + 1;
            }
            let word = subvec(body, i, j);
            proof {
                assert forall|m: int| 0 <= m < j - i implies !is_ws(#[trigger] t[m]) by {
                    assert(t[m] == body@[i + m]);
                }
                if j < n {
                    assert(t[j - i] == body@[j as int]);
                }
                lemma_word_len_exact(t, j - i);
                assert(t[0] == body@[i as int]);
                assert(t.subrange(0, j - i) =~= word@);
                assert(t.subrange(j - i, t.len() as int) =~= body@.subrange(j as int, n as int));
                assert(words(t) == seq![word@] + words(body@.subrange(j as int, n as int)));
                lemma_add_candidates_front(
                    strs_view(names@),
                    word@,
                    words(body@.subrange(j as int, n as int)),
                );
            }
            push_candidate(names, &word);
            i = j;
        }
    }
    assert(words(body@.subrange(n as int, n as int)) =~= seq![]);
}

/// The assets a mirror page lists; an error when it lists none.
pub fn mirror_python_asset_names(body: &str) -> (r: Result<Vec<String>, AppError>)
    ensures
        match r {
            Ok(v) => strs_view(v@) == mirror_asset_names(body@) && v@.len() > 0,
            Err(e) => mirror_asset_names(body@).len() == 0 && e@.0 == ErrorKind::Python
                && e@.1 == detail_payload("Failed to parse python mirror asset list"@),
        },
{
    proof {
        reveal_strlit("href=\u{22}");
        reveal_strlit("href='");
    }
    let b = chars_of(body);
    let mut names: Vec<String> = Vec::new();
    assert(strs_view(names@) =~= Seq::<Seq<char>>::empty());
    add_quoted(&b, "href=\u{22}", '\u{22}', &mut names);
    add_quoted(&b, "href='", '\u{27}', &mut names);
    let ghost linked = strs_view(names@);
    assert(linked == add_candidates(
        add_candidates(seq![], quoted_values(body@, "href=\u{22}"@, '\u{22}')),
        quoted_values(body@, "href='"@, '\u{27}'),
    ));
    assert(linked.len() == names@.len());
    if names.len() == 0 {
        let ghost empty = strs_view(names@);
        assert(empty =~= Seq::<Seq<char>>::empty());
        add_words(&b, &mut names);
        assert(strs_view(names@) == add_candidates(seq![], words(body@)));
    }
    assert(strs_view(names@) == mirror_asset_names(body@));
    assert(strs_view(names@).len() == names@.len());
    if names.len() == 0 {
        return Err(AppError::python("Failed to parse python mirror asset list"));
    }
    Ok(names)
}

/// No name occurs twice.
pub open spec fn no_repeats(v: Seq<Seq<char>>) -> bool {
    forall|i: int, j: int| 0 <= i < j < v.len() ==> #[trigger] v[i] != #[trigger] v[j]
}

proof fn lemma_add_candidates_no_repeats(names: Seq<Seq<char>>, candidates: Seq<Seq<char>>)
    requires
        no_repeats(names),
    ensures
        no_repeats(add_candidates(names, candidates)),
    decreases candidates.len(),
{
    if candidates.len() > 0 {
        let next = add_candidate(names, candidates[0]);
        assert(no_repeats(next)) by {
            if let Some(d) = asset_candidate_spec(candidates[0]) {
                if !names.contains(d) {
                    assert forall|i: int, j: int| 0 <= i < j < next.len() implies #[trigger] next[i]
                        != #[trigger] next[j] by {
                        if j == names.len() {
                            assert(next[i] == names[i]);
                            assert(next[j] == d);
                        } else {
                            assert(next[i] == names[i] && next[j] == names[j]);
                        }
                    }
                }
            }
        }
        lemma_add_candidates_no_repeats(next, candidates.subrange(1, candidates.len() as int));
    }
}

/// A mirror page's asset list never names an asset twice.
pub proof fn law_mirror_names_distinct(body: Seq<char>)
    ensures
        no_repeats(mirror_asset_names(body)),
{
    let empty = Seq::<Seq<char>>::empty();
    lemma_add_candidates_no_repeats(empty, quoted_values(body, "href=\u{22}"@, '\u{22}'));
    lemma_add_candidates_no_repeats(
        add_candidates(empty, quoted_values(body, "href=\u{22}"@, '\u{22}')),
        quoted_values(body, "href='"@, '\u{27}'),
    );
    lemma_add_candidates_no_repeats(empty, words(body));
}

} // verus!
