//! Character-level string helpers with exact specifications over `Seq<char>`.

use vstd::prelude::*;
use vstd::string::*;

verus! {

/// Unicode `White_Space` property, as used by `str::trim`.
pub open spec fn is_ws(c: char) -> bool {
    ||| ('\u{9}' <= c && c <= '\u{d}')
    ||| c == ' '
    ||| c == '\u{85}'
    ||| c == '\u{a0}'
    ||| c == '\u{1680}'
    ||| ('\u{2000}' <= c && c <= '\u{200a}')
    ||| c == '\u{2028}'
    ||| c == '\u{2029}'
    ||| c == '\u{202f}'
    ||| c == '\u{205f}'
    ||| c == '\u{3000}'
}

pub fn char_is_ws(c: char) -> (b: bool)
    ensures
        b == is_ws(c),
{
    ('\u{9}' <= c && c <= '\u{d}') || c == ' ' || c == '\u{85}' || c == '\u{a0}' || c
        == '\u{1680}' || ('\u{2000}' <= c && c <= '\u{200a}') || c == '\u{2028}' || c
        == '\u{2029}' || c == '\u{202f}' || c == '\u{205f}' || c == '\u{3000}'
}

/// Unicode general category `Cc`, as used by `char::is_control`.
pub open spec fn is_control(c: char) -> bool {
    c <= '\u{1f}' || ('\u{7f}' <= c && c <= '\u{9f}')
}

pub open spec fn is_ascii_alpha(c: char) -> bool {
    ('a' <= c && c <= 'z') || ('A' <= c && c <= 'Z')
}

pub open spec fn is_ascii_digit(c: char) -> bool {
    '0' <= c && c <= '9'
}

pub open spec fn is_ascii_alnum(c: char) -> bool {
    is_ascii_alpha(c) || is_ascii_digit(c)
}

pub open spec fn ascii_lower(c: char) -> char {
    if 'A' <= c && c <= 'Z' {
        ((c as u32) + 32) as char
    } else {
        c
    }
}

pub fn char_ascii_lower(c: char) -> (r: char)
    ensures
        r == ascii_lower(c),
{
    if 'A' <= c && c <= 'Z' {
        let x: u8 = (c as u32 + 32) as u8;
        assert(x as u32 == c as u32 + 32);
        x as char
    } else {
        c
    }
}

pub open spec fn lower_seq(s: Seq<char>) -> Seq<char> {
    s.map_values(|c: char| ascii_lower(c))
}

pub open spec fn eq_ignore_case(a: Seq<char>, b: Seq<char>) -> bool {
    lower_seq(a) == lower_seq(b)
}

pub open spec fn starts_with(s: Seq<char>, p: Seq<char>) -> bool {
    p.len() <= s.len() && s.subrange(0, p.len() as int) == p
}

pub open spec fn ends_with(s: Seq<char>, p: Seq<char>) -> bool {
    p.len() <= s.len() && s.subrange(s.len() - p.len(), s.len() as int) == p
}

/// `str::trim_start`.
pub open spec fn trim_start(s: Seq<char>) -> Seq<char>
    decreases s.len(),
{
    if s.len() > 0 && is_ws(s[0]) {
        trim_start(s.subrange(1, s.len() as int))
    } else {
        s
    }
}

/// `str::trim_end`.
pub open spec fn trim_end(s: Seq<char>) -> Seq<char>
    decreases s.len(),
{
    if s.len() > 0 && is_ws(s.last()) {
        trim_end(s.drop_last())
    } else {
        s
    }
}

/// `str::trim`.
pub open spec fn trim(s: Seq<char>) -> Seq<char> {
    trim_end(trim_start(s))
}

/// `str::trim_end_matches(c)` for a single character.
pub open spec fn trim_end_char(s: Seq<char>, c: char) -> Seq<char>
    decreases s.len(),
{
    if s.len() > 0 && s.last() == c {
        trim_end_char(s.drop_last(), c)
    } else {
        s
    }
}

/// `str::trim_start_matches(c)` for a single character.
pub open spec fn trim_start_char(s: Seq<char>, c: char) -> Seq<char>
    decreases s.len(),
{
    if s.len() > 0 && s[0] == c {
        trim_start_char(s.subrange(1, s.len() as int), c)
    } else {
        s
    }
}

/// Every character of `s` replaced by `to` where it equals `from`.
pub open spec fn replace_char(s: Seq<char>, from: char, to: char) -> Seq<char> {
    s.map_values(|c: char| if c == from { to } else { c })
}

/// Index of the first occurrence of `c`, or `s.len()` when absent.
pub open spec fn find_char(s: Seq<char>, c: char) -> int
    decreases s.len(),
{
    if s.len() == 0 {
        0
    } else if s[0] == c {
        0
    } else {
        1 + find_char(s.subrange(1, s.len() as int), c)
    }
}

/// `s.split(c)`: the maximal pieces between occurrences of `c`.
pub open spec fn split_char(s: Seq<char>, c: char) -> Seq<Seq<char>>
    decreases s.len(),
{
    let i = find_char(s, c);
    proof {
        lemma_find_char_bounds(s, c);
    }
    if i >= s.len() {
        seq![s]
    } else {
        seq![s.subrange(0, i)] + split_char(s.subrange(i + 1, s.len() as int), c)
    }
}

/// Pieces joined with a single separator character.
pub open spec fn join_char(parts: Seq<Seq<char>>, sep: char) -> Seq<char>
    decreases parts.len(),
{
    if parts.len() == 0 {
        seq![]
    } else if parts.len() == 1 {
        parts[0]
    } else {
        join_char(parts.drop_last(), sep) + seq![sep] + parts.last()
    }
}

/// The first index at or after `i` where `p` occurs in `s`, if any.
pub open spec fn occurrence_from(s: Seq<char>, p: Seq<char>, i: int) -> Option<int>
    decreases s.len() + 1 - i,
{
    if i < 0 || i + p.len() > s.len() {
        None
    } else if s.subrange(i, i + p.len()) == p {
        Some(i)
    } else {
        occurrence_from(s, p, i + 1)
    }
}

pub open spec fn first_occurrence(s: Seq<char>, p: Seq<char>) -> Option<int> {
    occurrence_from(s, p, 0)
}

/// `str::split_once(p)`.
pub open spec fn split_once(s: Seq<char>, p: Seq<char>) -> Option<(Seq<char>, Seq<char>)> {
    match first_occurrence(s, p) {
        Some(i) => Some((s.subrange(0, i), s.subrange(i + p.len(), s.len() as int))),
        None => None,
    }
}

pub proof fn lemma_trim_start_shape(s: Seq<char>)
    ensures
        exists|k: int|
            0 <= k <= s.len() && trim_start(s) == s.subrange(k, s.len() as int) && (forall|
                j: int,
            | 0 <= j < k ==> is_ws(#[trigger] s[j])) && (k < s.len() ==> !is_ws(s[k])),
    decreases s.len(),
{
    if s.len() > 0 && is_ws(s[0]) {
        let t = s.subrange(1, s.len() as int);
        lemma_trim_start_shape(t);
        let k = choose|k: int|
            0 <= k <= t.len() && trim_start(t) == t.subrange(k, t.len() as int) && (forall|
                j: int,
            | 0 <= j < k ==> is_ws(#[trigger] t[j])) && (k < t.len() ==> !is_ws(t[k]));
        assert(t.subrange(k, t.len() as int) =~= s.subrange(k + 1, s.len() as int));
        assert forall|j: int| 0 <= j < k + 1 implies is_ws(#[trigger] s[j]) by {
            if j > 0 {
                assert(s[j] == t[j - 1]);
            }
        }
        if k + 1 < s.len() {
            assert(s[k + 1] == t[k]);
        }
    } else {
        assert(s.subrange(0, s.len() as int) =~= s);
    }
}

/// Characters of a string slice, in order.
pub fn chars_of(s: &str) -> (v: Vec<char>)
    ensures
        v@ == s@,
{
    let n = s.unicode_len();
    let mut v: Vec<char> = Vec::new();
    let mut i: usize = 0;
    while i < n
        invariant
            n == s@.len(),
            i <= n,
            v@ == s@.subrange(0, i as int),
        decreases n - i,
    {
        let c = s.get_char(i);
        v.push(c);
        i = i + 1;
        assert(v@ =~= s@.subrange(0, i as int));
    }
    assert(v@ =~= s@);
    v
}

/// Builds a `String` holding exactly the given characters (`FromIterator<char>`).
#[verifier::external_body]
pub(crate) fn string_from_chars(v: &[char]) -> (s: String)
    ensures
        s@ == v@,
{
    v.iter().collect()
}

pub fn str_to_string(s: &str) -> (r: String)
    ensures
        r@ == s@,
{
    String::from_str(s)
}

/// `a` followed by `b`.
pub fn concat_str(a: &str, b: &str) -> (r: String)
    ensures
        r@ == a@ + b@,
{
    let mut r = String::from_str(a);
    r.append(b);
    r
}

pub fn trim_start_vec(v: &Vec<char>) -> (r: Vec<char>)
    ensures
        r@ == trim_start(v@),
{
    let n = v.len();
    let mut i: usize = 0;
    assert(v@.subrange(0, n as int) =~= v@);
    while i < n && char_is_ws(v[i])
        invariant
            n == v@.len(),
            i <= n,
            trim_start(v@) == trim_start(v@.subrange(i as int, n as int)),
        decreases n - i,
    {
        let ghost t = v@.subrange(i as int, n as int);
        assert(t.subrange(1, t.len() as int) =~= v@.subrange(i + 1, n as int));
        i = i + 1;
    }
    let mut r: Vec<char> = Vec::new();
    let mut j: usize = i;
    while j < n
        invariant
            n == v@.len(),
            i <= j <= n,
            r@ == v@.subrange(i as int, j as int),
        decreases n - j,
    {
        r.push(v[j]);
        j = j + 1;
        assert(r@ =~= v@.subrange(i as int, j as int));
    }
    r
}

pub fn trim_end_vec(v: &Vec<char>) -> (r: Vec<char>)
    ensures
        r@ == trim_end(v@),
{
    let n = v.len();
    let mut k: usize = n;
    assert(v@.subrange(0, n as int) =~= v@);
    while k > 0 && char_is_ws(v[k - 1])
        invariant
            n == v@.len(),
            k <= n,
            trim_end(v@) == trim_end(v@.subrange(0, k as int)),
        decreases k,
    {
        let ghost t = v@.subrange(0, k as int);
        assert(t.drop_last() =~= v@.subrange(0, k - 1));
        k = k - 1;
    }
    let mut r: Vec<char> = Vec::new();
    let mut j: usize = 0;
    while j < k
        invariant
            n == v@.len(),
            j <= k <= n,
            r@ == v@.subrange(0, j as int),
        decreases k - j,
    {
        r.push(v[j]);
        j = j + 1;
        assert(r@ =~= v@.subrange(0, j as int));
    }
    r
}

/// `str::trim`, as characters.
pub fn trim_vec(v: &Vec<char>) -> (r: Vec<char>)
    ensures
        r@ == trim(v@),
{
    let a = trim_start_vec(v);
    trim_end_vec(&a)
}

/// `str::trim`.
pub fn trim_str(s: &str) -> (r: String)
    ensures
        r@ == trim(s@),
{
    let v = chars_of(s);
    let t = trim_vec(&v);
    string_from_chars(t.as_slice())
}

pub fn trim_end_char_vec(v: &Vec<char>, c: char) -> (r: Vec<char>)
    ensures
        r@ == trim_end_char(v@, c),
{
    let n = v.len();
    let mut k: usize = n;
    assert(v@.subrange(0, n as int) =~= v@);
    while k > 0 && v[k - 1] == c
        invariant
            n == v@.len(),
            k <= n,
            trim_end_char(v@, c) == trim_end_char(v@.subrange(0, k as int), c),
        decreases k,
    {
        let ghost t = v@.subrange(0, k as int);
        assert(t.drop_last() =~= v@.subrange(0, k - 1));
        k = k - 1;
    }
    let mut r: Vec<char> = Vec::new();
    let mut j: usize = 0;
    while j < k
        invariant
            n == v@.len(),
            j <= k <= n,
            r@ == v@.subrange(0, j as int),
        decreases k - j,
    {
        r.push(v[j]);
        j = j + 1;
        assert(r@ =~= v@.subrange(0, j as int));
    }
    r
}

pub fn trim_start_char_vec(v: &Vec<char>, c: char) -> (r: Vec<char>)
    ensures
        r@ == trim_start_char(v@, c),
{
    let n = v.len();
    let mut i: usize = 0;
    assert(v@.subrange(0, n as int) =~= v@);
    while i < n && v[i] == c
        invariant
            n == v@.len(),
            i <= n,
            trim_start_char(v@, c) == trim_start_char(v@.subrange(i as int, n as int), c),
        decreases n - i,
    {
        let ghost t = v@.subrange(i as int, n as int);
        assert(t.subrange(1, t.len() as int) =~= v@.subrange(i + 1, n as int));
        i = i + 1;
    }
    let mut r: Vec<char> = Vec::new();
    let mut j: usize = i;
    while j < n
        invariant
            n == v@.len(),
            i <= j <= n,
            r@ == v@.subrange(i as int, j as int),
        decreases n - j,
    {
        r.push(v[j]);
        j = j + 1;
        assert(r@ =~= v@.subrange(i as int, j as int));
    }
    r
}

pub fn starts_with_vec(s: &Vec<char>, p: &Vec<char>) -> (b: bool)
    ensures
        b == starts_with(s@, p@),
{
    if p.len() > s.len() {
        return false;
    }
    let mut i: usize = 0;
    while i < p.len()
        invariant
            p@.len() <= s@.len(),
            i <= p@.len(),
            forall|j: int| 0 <= j < i ==> s@[j] == p@[j],
        decreases p.len() - i,
    {
        if s[i] != p[i] {
            assert(s@.subrange(0, p@.len() as int)[i as int] != p@[i as int]);
            return false;
        }
        i = i + 1;
    }
    assert(s@.subrange(0, p@.len() as int) =~= p@);
    true
}

pub fn ends_with_vec(s: &Vec<char>, p: &Vec<char>) -> (b: bool)
    ensures
        b == ends_with(s@, p@),
{
    if p.len() > s.len() {
        return false;
    }
    let off = s.len() - p.len();
    let mut i: usize = 0;
    while i < p.len()
        invariant
            p@.len() <= s@.len(),
            off + p@.len() == s@.len(),
            s@.len() <= usize::MAX,
            i <= p@.len(),
            forall|j: int| 0 <= j < i ==> s@[off + j] == p@[j],
        decreases p.len() - i,
    {
        if s[off + i] != p[i] {
            assert(s@.subrange(off as int, s@.len() as int)[i as int] != p@[i as int]);
            return false;
        }
        i = i + 1;
    }
    assert(s@.subrange(off as int, s@.len() as int) =~= p@);
    true
}

pub fn eq_vec(a: &Vec<char>, b: &Vec<char>) -> (r: bool)
    ensures
        r == (a@ == b@),
{
    if a.len() != b.len() {
        return false;
    }
    let mut i: usize = 0;
    while i < a.len()
        invariant
            a@.len() == b@.len(),
            i <= a@.len(),
            forall|j: int| 0 <= j < i ==> a@[j] == b@[j],
        decreases a.len() - i,
    {
        if a[i] != b[i] {
            return false;
        }
        i = i + 1;
    }
    assert(a@ =~= b@);
    true
}

pub fn lower_vec(v: &Vec<char>) -> (r: Vec<char>)
    ensures
        r@ == lower_seq(v@),
{
    let mut r: Vec<char> = Vec::new();
    let mut i: usize = 0;
    while i < v.len()
        invariant
            i <= v@.len(),
            r@ == lower_seq(v@.subrange(0, i as int)),
        decreases v.len() - i,
    {
        let c = char_ascii_lower(v[i]);
        r.push(c);
        i = i + 1;
        assert(r@ =~= lower_seq(v@.subrange(0, i as int)));
    }
    assert(v@.subrange(0, v@.len() as int) =~= v@);
    r
}

pub fn eq_ignore_case_vec(a: &Vec<char>, b: &Vec<char>) -> (r: bool)
    ensures
        r == eq_ignore_case(a@, b@),
{
    let la = lower_vec(a);
    let lb = lower_vec(b);
    eq_vec(&la, &lb)
}

pub fn contains_char_vec(v: &Vec<char>, c: char) -> (b: bool)
    ensures
        b == v@.contains(c),
{
    let mut i: usize = 0;
    while i < v.len()
        invariant
            i <= v@.len(),
            forall|j: int| 0 <= j < i ==> v@[j] != c,
        decreases v.len() - i,
    {
        if v[i] == c {
            assert(v@[i as int] == c);
            return true;
        }
        i = i + 1;
    }
    false
}

pub fn replace_char_vec(v: &Vec<char>, from: char, to: char) -> (r: Vec<char>)
    ensures
        r@ == replace_char(v@, from, to),
{
    let mut r: Vec<char> = Vec::new();
    let mut i: usize = 0;
    while i < v.len()
        invariant
            i <= v@.len(),
            r@ == replace_char(v@.subrange(0, i as int), from, to),
        decreases v.len() - i,
    {
        let c = v[i];
        if c == from {
            r.push(to);
        } else {
            r.push(c);
        }
        i = i + 1;
        assert(r@ =~= replace_char(v@.subrange(0, i as int), from, to));
    }
    assert(v@.subrange(0, v@.len() as int) =~= v@);
    r
}

pub fn subvec(v: &Vec<char>, lo: usize, hi: usize) -> (r: Vec<char>)
    requires
        lo <= hi <= v@.len(),
    ensures
        r@ == v@.subrange(lo as int, hi as int),
{
    let mut r: Vec<char> = Vec::new();
    let mut j: usize = lo;
    while j < hi
        invariant
            lo <= j <= hi <= v@.len(),
            r@ == v@.subrange(lo as int, j as int),
        decreases hi - j,
    {
        r.push(v[j]);
        j = j + 1;
        assert(r@ =~= v@.subrange(lo as int, j as int));
    }
    r
}

pub fn append_vec(a: &mut Vec<char>, b: &Vec<char>)
    ensures
        final(a)@ == old(a)@ + b@,
{
    let mut i: usize = 0;
    while i < b.len()
        invariant
            i <= b@.len(),
            a@ == old(a)@ + b@.subrange(0, i as int),
        decreases b.len() - i,
    {
        a.push(b[i]);
        i = i + 1;
        assert(a@ =~= old(a)@ + b@.subrange(0, i as int));
    }
    assert(b@.subrange(0, b@.len() as int) =~= b@);
}

/// Index of the first `c` in `v`, or `v.len()` when there is none.
pub fn find_char_vec(v: &Vec<char>, c: char) -> (i: usize)
    ensures
        i as int == find_char(v@, c),
        i <= v@.len(),
        i < v@.len() ==> v@[i as int] == c,
        forall|j: int| 0 <= j < i ==> v@[j] != c,
{
    let mut i: usize = 0;
    while i < v.len() && v[i] != c
        invariant
            i <= v@.len(),
            forall|j: int| 0 <= j < i ==> v@[j] != c,
        decreases v.len() - i,
    {
        i = i + 1;
    }
    proof {
        lemma_find_char_first(v@, c, i as int);
    }
    i
}

pub proof fn lemma_find_char_bounds(s: Seq<char>, c: char)
    ensures
        0 <= find_char(s, c) <= s.len(),
        find_char(s, c) < s.len() ==> s[find_char(s, c)] == c,
        forall|j: int| 0 <= j < find_char(s, c) ==> s[j] != c,
    decreases s.len(),
{
    if s.len() > 0 && s[0] != c {
        let t = s.subrange(1, s.len() as int);
        lemma_find_char_bounds(t, c);
        assert forall|j: int| 0 <= j < find_char(s, c) implies s[j] != c by {
            if j > 0 {
                assert(s[j] == t[j - 1]);
            }
        }
    }
}

pub proof fn lemma_find_char_first(s: Seq<char>, c: char, i: int)
    requires
        0 <= i <= s.len(),
        forall|j: int| 0 <= j < i ==> s[j] != c,
        i < s.len() ==> s[i] == c,
    ensures
        find_char(s, c) == i,
    decreases s.len(),
{
    if s.len() > 0 && s[0] != c {
        let t = s.subrange(1, s.len() as int);
        assert forall|j: int| 0 <= j < i - 1 implies t[j] != c by {
            assert(t[j] == s[j + 1]);
        }
        if i - 1 < t.len() {
            assert(t[i - 1] == s[i]);
        }
        lemma_find_char_first(t, c, i - 1);
    }
}

/// `s.split(c)` as a vector of pieces.
pub fn split_char_vec(v: &Vec<char>, c: char) -> (r: Vec<Vec<char>>)
    ensures
        r@.map_values(|p: Vec<char>| p@) == split_char(v@, c),
{
    let mut r: Vec<Vec<char>> = Vec::new();
    let mut start: usize = 0;
    let n = v.len();
    let mut done = false;
    assert(v@.subrange(0, n as int) =~= v@);
    assert(r@.map_values(|p: Vec<char>| p@) =~= Seq::<Seq<char>>::empty());
    while !done
        invariant
            n == v@.len(),
            start <= n,
            !done ==> split_char(v@, c) == r@.map_values(|p: Vec<char>| p@) + split_char(
                v@.subrange(start as int, n as int),
                c,
            ),
            done ==> split_char(v@, c) == r@.map_values(|p: Vec<char>| p@),
        decreases n - start + (if done { 0int } else { 1int }),
    {
        let rest = subvec(v, start, n);
        let k = find_char_vec(&rest, c);
        let piece = subvec(&rest, 0, k);
        let ghost old_r = r@;
        r.push(piece);
        assert(r@.map_values(|p: Vec<char>| p@) =~= old_r.map_values(|p: Vec<char>| p@)
            + seq![rest@.subrange(0, k as int)]);
        if k >= rest.len() {
            assert(rest@.subrange(0, k as int) =~= rest@);
            done = true;
        } else {
            assert(rest@.subrange(k + 1, rest@.len() as int) =~= v@.subrange(
                start + k + 1,
                n as int,
            ));
            start = start + k + 1;
        }
    }
    r
}

/// Decimal digits of `n`, most significant first, without leading zeros.
pub open spec fn decimal(n: nat) -> Seq<char>
    decreases n,
{
    if n < 10 {
        seq![digit_char(n)]
    } else {
        decimal(n / 10) + seq![digit_char(n % 10)]
    }
}

pub open spec fn digit_char(d: nat) -> char {
    ((d + 48) as u32) as char
}

fn digit_to_char(d: u64) -> (c: char)
    requires
        d < 10,
    ensures
        c == digit_char(d as nat),
{
    let x: u8 = (d + 48) as u8;
    x as char
}

/// `n.to_string()` for an unsigned integer.
#[verifier::spinoff_prover]
#[verifier::rlimit(30)]
pub fn u64_to_decimal(n: u64) -> (r: String)
    ensures
        r@ == decimal(n as nat),
{
    let mut rev: Vec<char> = Vec::new();
    let mut m: u64 = n;
    // `rev` holds the low digits, least significant first.
    loop
        invariant_except_break
            decimal(n as nat) == decimal(m as nat) + rev@.reverse(),
        ensures
            decimal(n as nat) == rev@.reverse(),
        decreases m,
    {
        let d = m % 10;
        let c = digit_to_char(d);
        let ghost prev = rev@;
        rev.push(c);
        assert(rev@.reverse() =~= seq![c] + prev.reverse());
        if m < 10 {
            assert(decimal(m as nat) == seq![digit_char(m as nat)]);
            assert(decimal(n as nat) =~= rev@.reverse());
            break;
        }
        assert(decimal(m as nat) == decimal((m / 10) as nat) + seq![digit_char((m % 10) as nat)]);
        assert(decimal(n as nat) =~= decimal((m / 10) as nat) + rev@.reverse());
        m = m / 10;
    }
    let mut out: Vec<char> = Vec::new();
    let mut i: usize = rev.len();
    while i > 0
        invariant
            i <= rev@.len(),
            out@ == rev@.subrange(i as int, rev@.len() as int).reverse(),
        decreases i,
    {
        i = i - 1;
        out.push(rev[i]);
        assert(out@ =~= rev@.subrange(i as int, rev@.len() as int).reverse());
    }
    assert(rev@.subrange(0, rev@.len() as int) =~= rev@);
    string_from_chars(out.as_slice())
}

/// Index of the first occurrence of `p` in `s`, if any.
pub fn find_seq_vec(s: &Vec<char>, p: &Vec<char>) -> (r: Option<usize>)
    ensures
        match r {
            Some(i) => first_occurrence(s@, p@) == Some(i as int) && i + p@.len() <= s@.len(),
            None => first_occurrence(s@, p@) is None,
        },
{
    if p.len() > s.len() {
        return None;
    }
    let last = s.len() - p.len();
    let mut i: usize = 0;
    while i <= last
        invariant
            last == s@.len() - p@.len(),
            p@.len() <= s@.len(),
            i <= last + 1,
            first_occurrence(s@, p@) == occurrence_from(s@, p@, i as int),
        decreases last + 1 - i,
    {
        let mut k: usize = 0;
        let mut ok = true;
        while k < p.len()
            invariant
                i <= last,
                last == s@.len() - p@.len(),
                p@.len() <= s@.len(),
                k <= p@.len(),
                ok == (forall|m: int| 0 <= m < k ==> s@[i + m] == p@[m]),
            decreases p.len() - k,
        {
            assert(i + k < s@.len());
            assert(s@.len() == s.len());
            if s[i + k] != p[k] {
                ok = false;
            }
            k = k + 1;
        }
        if ok {
            assert(s@.subrange(i as int, i + p@.len()) =~= p@);
            return Some(i);
        }
        proof {
            let m = choose|m: int| 0 <= m < p@.len() && s@[i + m] != p@[m];
            assert(s@.subrange(i as int, i + p@.len())[m] == s@[i + m]);
        }
        if i == last {
            assert(occurrence_from(s@, p@, i + 1) is None);
            return None;
        }
        i = i + 1;
    }
    None
}

/// `s.split_once(p)` on character vectors.
pub fn split_once_vec(s: &Vec<char>, p: &Vec<char>) -> (r: Option<(Vec<char>, Vec<char>)>)
    ensures
        match r {
            Some((a, b)) => split_once(s@, p@) == Some((a@, b@)),
            None => split_once(s@, p@) is None,
        },
{
    match find_seq_vec(s, p) {
        Some(i) => {
            assert(i + p@.len() <= s@.len());
            assert(s@.len() == s.len());
            Some((subvec(s, 0, i), subvec(s, i + p.len(), s.len())))
        },
        None => None,
    }
}

/// Why a string is not an unsigned integer.
#[derive(Debug, Clone, Copy, PartialEq, Eq, Structural)]
pub enum IntErrorKind {
    Empty,
    InvalidDigit,
    PosOverflow,
}

/// The message of an integer parse error.
pub open spec fn int_error_message(k: IntErrorKind) -> Seq<char> {
    match k {
        IntErrorKind::Empty => "cannot parse integer from empty string"@,
        IntErrorKind::InvalidDigit => "invalid digit found in string"@,
        IntErrorKind::PosOverflow => "number too large to fit in target type"@,
    }
}

pub fn int_error_text(k: IntErrorKind) -> (r: &'static str)
    ensures
        r@ == int_error_message(k),
{
    match k {
        IntErrorKind::Empty => "cannot parse integer from empty string",
        IntErrorKind::InvalidDigit => "invalid digit found in string",
        IntErrorKind::PosOverflow => "number too large to fit in target type",
    }
}

/// Value of a string of decimal digits.
pub open spec fn digits_value(s: Seq<char>) -> nat
    decreases s.len(),
{
    if s.len() == 0 {
        0
    } else {
        digits_value(s.drop_last()) * 10 + ((s.last() as u32) - ('0' as u32)) as nat
    }
}

/// Index of the first character of `s` that is not a decimal digit, or `s.len()`.
pub open spec fn first_non_digit(s: Seq<char>) -> int
    decreases s.len(),
{
    if s.len() == 0 {
        0
    } else if is_ascii_digit(s[0]) {
        1 + first_non_digit(s.subrange(1, s.len() as int))
    } else {
        0
    }
}

/// `u16::from_str`: an optional `+` then decimal digits. Digits are read left
/// to right, so an overflow among the leading digits is reported before a
/// later invalid character.
pub open spec fn parse_u16_spec(s: Seq<char>) -> Result<u16, IntErrorKind> {
    if s.len() == 0 {
        Err(IntErrorKind::Empty)
    } else if s == seq!['+'] || s == seq!['-'] {
        Err(IntErrorKind::InvalidDigit)
    } else {
        let body = if s[0] == '+' {
            s.subrange(1, s.len() as int)
        } else {
            s
        };
        let k = first_non_digit(body);
        if digits_value(body.take(k)) > 65535 {
            Err(IntErrorKind::PosOverflow)
        } else if k < body.len() {
            Err(IntErrorKind::InvalidDigit)
        } else {
            Ok(digits_value(body) as u16)
        }
    }
}

proof fn lemma_first_non_digit(s: Seq<char>, i: int)
    requires
        0 <= i <= s.len(),
        forall|j: int| 0 <= j < i ==> is_ascii_digit(#[trigger] s[j]),
        i == s.len() || !is_ascii_digit(s[i]),
    ensures
        first_non_digit(s) == i,
    decreases s.len(),
{
    if s.len() > 0 && i > 0 {
        let t = s.subrange(1, s.len() as int);
        assert forall|j: int| 0 <= j < i - 1 implies is_ascii_digit(#[trigger] t[j]) by {
            assert(t[j] == s[j + 1]);
        }
        if i < s.len() {
            assert(t[i - 1] == s[i]);
        }
        lemma_first_non_digit(t, i - 1);
    }
}

proof fn lemma_digits_value_monotone(s: Seq<char>, i: int)
    requires
        0 <= i <= s.len(),
        forall|j: int| 0 <= j < s.len() ==> is_ascii_digit(#[trigger] s[j]),
    ensures
        digits_value(s.take(i)) <= digits_value(s),
    decreases s.len() - i,
{
    if i < s.len() {
        lemma_digits_value_monotone(s, i + 1);
        assert(s.take(i + 1).drop_last() =~= s.take(i));
        assert(s.take(i + 1).last() == s[i]);
    } else {
        assert(s.take(i) =~= s);
    }
}

/// `s.parse::<u16>()`.
pub fn parse_u16(s: &str) -> (r: Result<u16, IntErrorKind>)
    ensures
        r == parse_u16_spec(s@),
{
    let cs = chars_of(s);
    if cs.len() == 0 {
        return Err(IntErrorKind::Empty);
    }
    if cs.len() == 1 && (cs[0] == '+' || cs[0] == '-') {
        assert(s@ == seq!['+'] || s@ == seq!['-']);
        return Err(IntErrorKind::InvalidDigit);
    }
    assert(!(s@ == seq!['+'] || s@ == seq!['-'])) by {
        if s@ == seq!['+'] || s@ == seq!['-'] {
            assert(s@.len() == 1);
        }
    }
    let start: usize = if cs[0] == '+' { 1 } else { 0 };
    let ghost body = if s@[0] == '+' { s@.subrange(1, s@.len() as int) } else { s@ };
    let n = cs.len();
    let mut i: usize = start;
    let mut value: u32 = 0;
    while i < n
        invariant
            cs@ == s@,
            n == cs@.len(),
            n > 0,
            !(s@ == seq!['+'] || s@ == seq!['-']),
            body == (if s@[0] == '+' {
                s@.subrange(1, s@.len() as int)
            } else {
                s@
            }),
            start <= i <= n,
            start == 1 || start == 0,
            body == cs@.subrange(start as int, n as int),
            forall|j: int| start <= j < i ==> is_ascii_digit(#[trigger] cs@[j]),
            value == digits_value(body.take(i - start)),
            value <= 65535,
        decreases n - i,
    {
        let c = cs[i];
        if !('0' <= c && c <= '9') {
            proof {
                assert forall|j: int| 0 <= j < i - start implies is_ascii_digit(#[trigger] body[j]) by {
                    assert(body[j] == cs@[j + start]);
                }
                assert(body[i - start] == c);
                lemma_first_non_digit(body, i - start);
            }
            return Err(IntErrorKind::InvalidDigit);
        }
        let d = (c as u32) - ('0' as u32);
        proof {
            assert(body.take(i - start + 1).drop_last() =~= body.take(i - start));
            assert(body.take(i - start + 1).last() == c);
        }
        let next = value * 10 + d;
        if next > 65535 {
            proof {
                // The digits read so far already overflow; the rest cannot lower the value.
                let k = first_non_digit(body);
                let prefix_len = i - start + 1;
                let m = if k <= prefix_len { k } else { prefix_len };
                assert forall|j: int| 0 <= j < prefix_len implies is_ascii_digit(#[trigger] body[j]) by {
                    assert(body[j] == cs@[j + start]);
                }
                lemma_first_non_digit_at_least(body, prefix_len);
                let full = body.take(k);
                assert forall|j: int| 0 <= j < full.len() implies is_ascii_digit(#[trigger] full[j]) by {
                    lemma_before_first_non_digit(body, j);
                }
                lemma_digits_value_monotone(full, prefix_len);
                assert(full.take(prefix_len) =~= body.take(prefix_len));
            }
            return Err(IntErrorKind::PosOverflow);
        }
        value = next;
        i = i + 1;
    }
    proof {
        assert forall|j: int| 0 <= j < body.len() implies is_ascii_digit(#[trigger] body[j]) by {
            assert(body[j] == cs@[j + start]);
        }
        lemma_first_non_digit(body, body.len() as int);
        assert(body.take(body.len() as int) =~= body);
    }
    Ok(value as u16)
}

proof fn lemma_first_non_digit_at_least(s: Seq<char>, i: int)
    requires
        0 <= i <= s.len(),
        forall|j: int| 0 <= j < i ==> is_ascii_digit(#[trigger] s[j]),
    ensures
        i <= first_non_digit(s) <= s.len(),
    decreases s.len(),
{
    if s.len() > 0 {
        let t = s.subrange(1, s.len() as int);
        if i > 0 {
            assert forall|j: int| 0 <= j < i - 1 implies is_ascii_digit(#[trigger] t[j]) by {
                assert(t[j] == s[j + 1]);
            }
            lemma_first_non_digit_at_least(t, i - 1);
        } else if is_ascii_digit(s[0]) {
            lemma_first_non_digit_at_least(t, 0);
        }
    }
}

proof fn lemma_first_non_digit_le(s: Seq<char>)
    ensures
        0 <= first_non_digit(s) <= s.len(),
    decreases s.len(),
{
    if s.len() > 0 {
        lemma_first_non_digit_le(s.subrange(1, s.len() as int));
    }
}

proof fn lemma_before_first_non_digit(s: Seq<char>, j: int)
    requires
        0 <= j < first_non_digit(s),
    ensures
        j < s.len(),
        is_ascii_digit(s[j]),
    decreases s.len(),
{
    lemma_first_non_digit_le(s);
    if s.len() > 0 && is_ascii_digit(s[0]) && j > 0 {
        let t = s.subrange(1, s.len() as int);
        lemma_before_first_non_digit(t, j - 1);
        assert(t[j - 1] == s[j]);
    }
}

/// `u32::from_str`: an optional `+` then decimal digits. Digits are read left
/// to right, so an overflow among the leading digits is reported before a
/// later invalid character.
pub open spec fn parse_u32_spec(s: Seq<char>) -> Result<u32, IntErrorKind> {
    if s.len() == 0 {
        Err(IntErrorKind::Empty)
    } else if s == seq!['+'] || s == seq!['-'] {
        Err(IntErrorKind::InvalidDigit)
    } else {
        let body = if s[0] == '+' {
            s.subrange(1, s.len() as int)
        } else {
            s
        };
        let k = first_non_digit(body);
        if digits_value(body.take(k)) > 4294967295 {
            Err(IntErrorKind::PosOverflow)
        } else if k < body.len() {
            Err(IntErrorKind::InvalidDigit)
        } else {
            Ok(digits_value(body) as u32)
        }
    }
}

/// `s.parse::<u32>()`.
pub fn parse_u32(s: &str) -> (r: Result<u32, IntErrorKind>)
    ensures
        r == parse_u32_spec(s@),
{
    let cs = chars_of(s);
    if cs.len() == 0 {
        return Err(IntErrorKind::Empty);
    }
    if cs.len() == 1 && (cs[0] == '+' || cs[0] == '-') {
        assert(s@ == seq!['+'] || s@ == seq!['-']);
        return Err(IntErrorKind::InvalidDigit);
    }
    assert(!(s@ == seq!['+'] || s@ == seq!['-'])) by {
        if s@ == seq!['+'] || s@ == seq!['-'] {
            assert(s@.len() == 1);
        }
    }
    let start: usize = if cs[0] == '+' { 1 } else { 0 };
    let ghost body = if s@[0] == '+' { s@.subrange(1, s@.len() as int) } else { s@ };
    let n = cs.len();
    let mut i: usize = start;
    let mut value: u64 = 0;
    while i < n
        invariant
            cs@ == s@,
            n == cs@.len(),
            n > 0,
            !(s@ == seq!['+'] || s@ == seq!['-']),
            body == (if s@[0] == '+' {
                s@.subrange(1, s@.len() as int)
            } else {
                s@
            }),
            start <= i <= n,
            start == 1 || start == 0,
            body == cs@.subrange(start as int, n as int),
            forall|j: int| start <= j < i ==> is_ascii_digit(#[trigger] cs@[j]),
            value == digits_value(body.take(i - start)),
            value <= 4294967295,
        decreases n - i,
    {
        let c = cs[i];
        if !('0' <= c && c <= '9') {
            proof {
                assert forall|j: int| 0 <= j < i - start implies is_ascii_digit(#[trigger] body[j]) by {
                    assert(body[j] == cs@[j + start]);
                }
                assert(body[i - start] == c);
                lemma_first_non_digit(body, i - start);
            }
            return Err(IntErrorKind::InvalidDigit);
        }
        let d = ((c as u32) - ('0' as u32)) as u64;
        proof {
            assert(body.take(i - start + 1).drop_last() =~= body.take(i - start));
            assert(body.take(i - start + 1).last() == c);
        }
        let next = value * 10 + d;
        if next > 4294967295 {
            proof {
                // The digits read so far already overflow; the rest cannot lower the value.
                let k = first_non_digit(body);
                let prefix_len = i - start + 1;
                let m = if k <= prefix_len { k } else { prefix_len };
                assert forall|j: int| 0 <= j < prefix_len implies is_ascii_digit(#[trigger] body[j]) by {
                    assert(body[j] == cs@[j + start]);
                }
                lemma_first_non_digit_at_least(body, prefix_len);
                let full = body.take(k);
                assert forall|j: int| 0 <= j < full.len() implies is_ascii_digit(#[trigger] full[j]) by {
                    lemma_before_first_non_digit(body, j);
                }
                lemma_digits_value_monotone(full, prefix_len);
                assert(full.take(prefix_len) =~= body.take(prefix_len));
            }
            return Err(IntErrorKind::PosOverflow);
        }
        value = next;
        i = i + 1;
    }
    proof {
        assert forall|j: int| 0 <= j < body.len() implies is_ascii_digit(#[trigger] body[j]) by {
            assert(body[j] == cs@[j + start]);
        }
        lemma_first_non_digit(body, body.len() as int);
        assert(body.take(body.len() as int) =~= body);
    }
    Ok(value as u32)
}

/// The UTF-8 encoding of a character sequence.
pub open spec fn encode_chars(s: Seq<char>) -> Seq<u8> {
    vstd::utf8::encode_utf8(s)
}

/// How `std` shows a path with `{:?}`.
pub uninterp spec fn path_debug(p: Seq<char>) -> Seq<char>;

/// Formats `Path::new(p)` with `{:?}` (quoted, special characters escaped);
/// the contract names the text without restating the escaping rules.
#[verifier::external_body]
pub(crate) fn path_debug_text(p: &str) -> (r: String)
    ensures
        r@ == path_debug(p@),
{
    format!("{:?}", std::path::Path::new(p))
}

} // verus!
