//! Association lists keyed by strings: the abstract map they denote and the
//! facts about lookup, update, insertion and removal that keyed tables in
//! this crate rely on.

use vstd::prelude::*;
use vstd::string::*;

use crate::text::str_to_string;

verus! {

/// The map denoted by a list of key/value pairs (later pairs win).
pub open spec fn map_of<V>(s: Seq<(Seq<char>, V)>) -> Map<Seq<char>, V>
    decreases s.len(),
{
    if s.len() == 0 {
        Map::empty()
    } else {
        map_of(s.drop_last()).insert(s.last().0, s.last().1)
    }
}

/// The list with each `String` key replaced by its character sequence.
pub open spec fn key_view<V>(s: Seq<(String, V)>) -> Seq<(Seq<char>, V)> {
    s.map_values(|p: (String, V)| (p.0@, p.1))
}

/// The pairs of `s` whose value `f` maps to `Some`, in order, with the mapped value.
pub open spec fn filter_map_seq<V, W>(s: Seq<(Seq<char>, V)>, f: spec_fn(V) -> Option<W>) -> Seq<
    (Seq<char>, W),
>
    decreases s.len(),
{
    if s.len() == 0 {
        Seq::empty()
    } else {
        let r = filter_map_seq(s.drop_last(), f);
        match f(s.last().1) {
            Some(w) => r.push((s.last().0, w)),
            None => r,
        }
    }
}

/// The keys of `m` whose value `f` maps to `Some`, with the mapped value.
pub open spec fn filter_map_map<V, W>(m: Map<Seq<char>, V>, f: spec_fn(V) -> Option<W>) -> Map<
    Seq<char>,
    W,
> {
    Map::new(|k: Seq<char>| m.dom().contains(k) && f(m[k]) is Some, |k: Seq<char>| f(m[k])->0)
}

pub open spec fn distinct_keys<V>(s: Seq<(Seq<char>, V)>) -> bool {
    forall|i: int, j: int| 0 <= i < s.len() && 0 <= j < s.len() && i != j ==> s[i].0 != s[j].0
}

pub open spec fn has_key<V>(s: Seq<(Seq<char>, V)>, k: Seq<char>) -> bool {
    exists|i: int| 0 <= i < s.len() && s[i].0 == k
}

pub proof fn lemma_map_of_dom<V>(s: Seq<(Seq<char>, V)>, k: Seq<char>)
    ensures
        map_of(s).dom().contains(k) <==> has_key(s, k),
    decreases s.len(),
{
    if s.len() > 0 {
        let d = s.drop_last();
        lemma_map_of_dom(d, k);
        if has_key(d, k) {
            let i = choose|i: int| 0 <= i < d.len() && d[i].0 == k;
            assert(s[i].0 == k);
        }
        if has_key(s, k) {
            let i = choose|i: int| 0 <= i < s.len() && s[i].0 == k;
            if i < s.len() - 1 {
                assert(d[i].0 == k);
            }
        }
    }
}

pub proof fn lemma_map_of_index<V>(s: Seq<(Seq<char>, V)>, i: int)
    requires
        distinct_keys(s),
        0 <= i < s.len(),
    ensures
        map_of(s).dom().contains(s[i].0),
        map_of(s)[s[i].0] == s[i].1,
    decreases s.len(),
{
    if i < s.len() - 1 {
        let d = s.drop_last();
        assert(d[i] == s[i]);
        lemma_map_of_index(d, i);
    }
}

pub proof fn lemma_distinct_drop_last<V>(s: Seq<(Seq<char>, V)>)
    requires
        distinct_keys(s),
        s.len() > 0,
    ensures
        distinct_keys(s.drop_last()),
        !has_key(s.drop_last(), s.last().0),
{
    let d = s.drop_last();
    assert forall|i: int, j: int| 0 <= i < d.len() && 0 <= j < d.len() && i != j implies d[i].0
        != d[j].0 by {
        assert(d[i] == s[i] && d[j] == s[j]);
    }
    if has_key(d, s.last().0) {
        let i = choose|i: int| 0 <= i < d.len() && d[i].0 == s.last().0;
        assert(s[i].0 == s[s.len() - 1].0);
    }
}

pub proof fn lemma_map_of_update<V>(s: Seq<(Seq<char>, V)>, i: int, v: V)
    requires
        distinct_keys(s),
        0 <= i < s.len(),
    ensures
        distinct_keys(s.update(i, (s[i].0, v))),
        map_of(s.update(i, (s[i].0, v))) == map_of(s).insert(s[i].0, v),
    decreases s.len(),
{
    let t = s.update(i, (s[i].0, v));
    assert forall|a: int, b: int| 0 <= a < t.len() && 0 <= b < t.len() && a != b implies t[a].0
        != t[b].0 by {
        assert(t[a].0 == s[a].0 && t[b].0 == s[b].0);
    }
    let d = s.drop_last();
    if i == s.len() - 1 {
        assert(t.drop_last() =~= d);
        assert(map_of(t) =~= map_of(s).insert(s[i].0, v));
    } else {
        lemma_distinct_drop_last(s);
        assert(d[i] == s[i]);
        lemma_map_of_update(d, i, v);
        assert(t.drop_last() =~= d.update(i, (d[i].0, v)));
        assert(t.last() == s.last());
        assert(s[i].0 != s.last().0);
        assert(map_of(t) =~= map_of(s).insert(s[i].0, v));
    }
}

pub proof fn lemma_map_of_remove<V>(s: Seq<(Seq<char>, V)>, i: int)
    requires
        distinct_keys(s),
        0 <= i < s.len(),
    ensures
        distinct_keys(s.remove(i)),
        map_of(s.remove(i)) == map_of(s).remove(s[i].0),
    decreases s.len(),
{
    let t = s.remove(i);
    assert forall|a: int, b: int| 0 <= a < t.len() && 0 <= b < t.len() && a != b implies t[a].0
        != t[b].0 by {
        let sa = if a < i { a } else { a + 1 };
        let sb = if b < i { b } else { b + 1 };
        assert(t[a] == s[sa] && t[b] == s[sb]);
    }
    let d = s.drop_last();
    lemma_distinct_drop_last(s);
    if i == s.len() - 1 {
        assert(t =~= d);
        lemma_map_of_dom(d, s.last().0);
        assert(map_of(t) =~= map_of(s).remove(s[i].0));
    } else {
        assert(d[i] == s[i]);
        lemma_map_of_remove(d, i);
        assert(t.drop_last() =~= d.remove(i));
        assert(t.last() == s.last());
        assert(s[i].0 != s.last().0);
        assert(map_of(t) =~= map_of(s).remove(s[i].0));
    }
}

pub proof fn lemma_map_of_push<V>(s: Seq<(Seq<char>, V)>, k: Seq<char>, v: V)
    requires
        distinct_keys(s),
        !has_key(s, k),
    ensures
        distinct_keys(s.push((k, v))),
        map_of(s.push((k, v))) == map_of(s).insert(k, v),
{
    let t = s.push((k, v));
    assert forall|a: int, b: int| 0 <= a < t.len() && 0 <= b < t.len() && a != b implies t[a].0
        != t[b].0 by {
        if a == s.len() {
            assert(s[b].0 != k);
        } else if b == s.len() {
            assert(s[a].0 != k);
        }
    }
    assert(t.drop_last() =~= s);
}

pub proof fn lemma_filter_map<V, W>(s: Seq<(Seq<char>, V)>, f: spec_fn(V) -> Option<W>)
    requires
        distinct_keys(s),
    ensures
        distinct_keys(filter_map_seq(s, f)),
        map_of(filter_map_seq(s, f)) == filter_map_map(map_of(s), f),
        forall|k: Seq<char>| has_key(filter_map_seq(s, f), k) ==> has_key(s, k),
    decreases s.len(),
{
    if s.len() == 0 {
        assert(map_of(filter_map_seq(s, f)) =~= filter_map_map(map_of(s), f));
    } else {
        let d = s.drop_last();
        let k = s.last().0;
        let v = s.last().1;
        lemma_distinct_drop_last(s);
        lemma_filter_map(d, f);
        lemma_map_of_dom(d, k);
        let fd = filter_map_seq(d, f);
        assert forall|q: Seq<char>| has_key(filter_map_seq(s, f), q) implies has_key(s, q) by {
            let i = choose|i: int|
                0 <= i < filter_map_seq(s, f).len() && filter_map_seq(s, f)[i].0 == q;
            if i < fd.len() {
                assert(fd[i] == filter_map_seq(s, f)[i]);
                assert(has_key(d, q));
                let j = choose|j: int| 0 <= j < d.len() && d[j].0 == q;
                assert(s[j] == d[j]);
            } else {
                assert(s[s.len() - 1].0 == q);
            }
        }
        match f(v) {
            Some(w) => {
                lemma_map_of_push(fd, k, w);
                assert(filter_map_seq(s, f) == fd.push((k, w)));
                assert(map_of(filter_map_seq(s, f)) =~= filter_map_map(map_of(s), f));
            },
            None => {
                assert(filter_map_seq(s, f) == fd);
                assert(map_of(filter_map_seq(s, f)) =~= filter_map_map(map_of(s), f));
            },
        }
    }
}

/// One step of a left-to-right scan: the filtered prefix grows by the mapped element.
pub proof fn lemma_filter_map_step<V, W>(
    s: Seq<(Seq<char>, V)>,
    f: spec_fn(V) -> Option<W>,
    i: int,
)
    requires
        0 <= i < s.len(),
    ensures
        filter_map_seq(s.take(i + 1), f) == match f(s[i].1) {
            Some(w) => filter_map_seq(s.take(i), f).push((s[i].0, w)),
            None => filter_map_seq(s.take(i), f),
        },
{
    assert(s.take(i + 1).drop_last() =~= s.take(i));
}

/// Index of the pair keyed `key` in a table with distinct keys.
pub fn table_find<V>(t: &Vec<(String, V)>, key: &str) -> (r: Option<usize>)
    requires
        distinct_keys(key_view(t@)),
    ensures
        match r {
            Some(i) => i < t@.len() && t@[i as int].0@ == key@ && map_of(key_view(t@)).dom().contains(
                key@,
            ) && map_of(key_view(t@))[key@] == t@[i as int].1,
            None => !map_of(key_view(t@)).dom().contains(key@),
        },
{
    let k = str_to_string(key);
    let mut i: usize = 0;
    while i < t.len()
        invariant
            i <= t@.len(),
            distinct_keys(key_view(t@)),
            k@ == key@,
            forall|j: int| 0 <= j < i ==> t@[j].0@ != key@,
        decreases t.len() - i,
    {
        if t[i].0 == k {
            proof {
                assert(key_view(t@)[i as int] == (t@[i as int].0@, t@[i as int].1));
                lemma_map_of_index(key_view(t@), i as int);
            }
            return Some(i);
        }
        i = i + 1;
    }
    proof {
        lemma_map_of_dom(key_view(t@), key@);
        if has_key(key_view(t@), key@) {
            let j = choose|j: int| 0 <= j < key_view(t@).len() && key_view(t@)[j].0 == key@;
            assert(t@[j].0@ == key@);
        }
    }
    None
}

/// Removes and returns the pair at index `i`.
pub fn table_take<V>(t: &mut Vec<(String, V)>, i: usize) -> (r: (String, V))
    requires
        distinct_keys(key_view(old(t)@)),
        i < old(t)@.len(),
    ensures
        distinct_keys(key_view(final(t)@)),
        r.0@ == old(t)@[i as int].0@,
        map_of(key_view(old(t)@)).dom().contains(r.0@),
        map_of(key_view(old(t)@))[r.0@] == r.1,
        map_of(key_view(final(t)@)) == map_of(key_view(old(t)@)).remove(r.0@),
{
    proof {
        assert(key_view(t@)[i as int] == (t@[i as int].0@, t@[i as int].1));
        lemma_map_of_index(key_view(t@), i as int);
        lemma_map_of_remove(key_view(t@), i as int);
        assert(key_view(t@.remove(i as int)) =~= key_view(t@).remove(i as int));
    }
    t.remove(i)
}

/// Adds a pair under a key that is not present.
pub fn table_push_new<V>(t: &mut Vec<(String, V)>, key: String, v: V)
    requires
        distinct_keys(key_view(old(t)@)),
        !map_of(key_view(old(t)@)).dom().contains(key@),
    ensures
        distinct_keys(key_view(final(t)@)),
        map_of(key_view(final(t)@)) == map_of(key_view(old(t)@)).insert(key@, v),
{
    proof {
        lemma_map_of_dom(key_view(t@), key@);
        lemma_map_of_push(key_view(t@), key@, v);
    }
    let ghost before = t@;
    t.push((key, v));
    proof {
        assert(key_view(t@) =~= key_view(before).push((key@, v)));
    }
}

/// Inserts or replaces the pair keyed `key`.
pub fn table_insert<V>(t: &mut Vec<(String, V)>, key: &str, v: V)
    requires
        distinct_keys(key_view(old(t)@)),
    ensures
        distinct_keys(key_view(final(t)@)),
        map_of(key_view(final(t)@)) == map_of(key_view(old(t)@)).insert(key@, v),
{
    match table_find(t, key) {
        Some(i) => {
            let (k, _) = table_take(t, i);
            table_push_new(t, k, v);
        },
        None => {
            table_push_new(t, str_to_string(key), v);
        },
    }
}

} // verus!
