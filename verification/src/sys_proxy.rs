//! Parsing of the operating system's proxy settings (the Windows
//! `ProxyServer` / `ProxyOverride` registry strings).

use vstd::prelude::*;
use vstd::string::*;

use crate::archive_path::opt_view;
use crate::proxy::{
    normalize_proxy_url_with_scheme, proxy_scheme_kind_from_scheme, scheme_kind_spec, settings_spec,
    url_with_scheme_spec, ProxySchemeKind, ProxySettings, ProxySource, ProxyView,
};
use crate::text::{
    chars_of, contains_char_vec, eq_ignore_case, eq_ignore_case_vec, join_char, lower_seq,
    lower_vec, split_char, split_char_vec, split_once, split_once_vec, starts_with,
    starts_with_vec, string_from_chars, str_to_string, subvec, trim, trim_vec,
};
use crate::archive_path::strs_view;

verus! {

/// Which proxy slots a system proxy entry fills.
#[derive(Debug, Clone, Copy, PartialEq, Eq, Structural)]
pub enum ProxyAssignment {
    All,
    Http,
    Https,
}

pub open spec fn local_entries() -> Seq<Seq<char>> {
    seq!["localhost"@, "127.0.0.1"@, "::1"@, ".local"@]
}

/// The no-proxy entries one override entry stands for: `<local>` means the
/// local names, `*.suffix` means `.suffix`, blanks mean nothing.
pub open spec fn no_proxy_entry_spec(entry: Seq<char>) -> Seq<Seq<char>> {
    let t = trim(entry);
    if t.len() == 0 {
        Seq::empty()
    } else if eq_ignore_case(t, "<local>"@) {
        local_entries()
    } else if starts_with(t, "*."@) {
        seq![seq!['.'] + t.subrange(2, t.len() as int)]
    } else {
        seq![t]
    }
}

pub fn normalize_no_proxy_entry(entry: &str) -> (r: Vec<String>)
    ensures
        strs_view(r@) == no_proxy_entry_spec(entry@),
{
    let t = trim_vec(&chars_of(entry));
    let mut out: Vec<String> = Vec::new();
    if t.len() == 0 {
        assert(strs_view(out@) =~= Seq::<Seq<char>>::empty());
        return out;
    }
    if eq_ignore_case_vec(&t, &chars_of("<local>")) {
        out.push(str_to_string("localhost"));
        out.push(str_to_string("127.0.0.1"));
        out.push(str_to_string("::1"));
        out.push(str_to_string(".local"));
        assert(strs_view(out@) =~= local_entries());
        return out;
    }
    if starts_with_vec(&t, &chars_of("*.")) {
        proof {
            reveal_strlit("*.");
        }
        let mut n: Vec<char> = Vec::new();
        n.push('.');
        crate::text::append_vec(&mut n, &subvec(&t, 2, t.len()));
        out.push(string_from_chars(n.as_slice()));
        assert(strs_view(out@) =~= seq![seq!['.'] + t@.subrange(2, t@.len() as int)]);
        return out;
    }
    out.push(string_from_chars(t.as_slice()));
    assert(strs_view(out@) =~= seq![t@]);
    out
}

/// `acc` with `v` appended unless an entry equal to it ignoring ASCII case is there.
pub open spec fn add_unique(acc: Seq<Seq<char>>, v: Seq<char>) -> Seq<Seq<char>> {
    if exists|i: int| 0 <= i < acc.len() && eq_ignore_case(acc[i], v) {
        acc
    } else {
        acc.push(v)
    }
}

pub open spec fn add_all_unique(acc: Seq<Seq<char>>, vals: Seq<Seq<char>>) -> Seq<Seq<char>>
    decreases vals.len(),
{
    if vals.len() == 0 {
        acc
    } else {
        add_unique(add_all_unique(acc, vals.drop_last()), vals.last())
    }
}

/// The normalized entries of every override entry, first occurrence kept.
pub open spec fn no_proxy_list(entries: Seq<Seq<char>>) -> Seq<Seq<char>>
    decreases entries.len(),
{
    if entries.len() == 0 {
        Seq::empty()
    } else {
        add_all_unique(no_proxy_list(entries.drop_last()), no_proxy_entry_spec(entries.last()))
    }
}

fn contains_ignore_case(list: &Vec<String>, v: &Vec<char>) -> (b: bool)
    ensures
        b == exists|i: int| 0 <= i < list@.len() && eq_ignore_case(strs_view(list@)[i], v@),
{
    let mut i: usize = 0;
    while i < list.len()
        invariant
            i <= list@.len(),
            forall|j: int| 0 <= j < i ==> !eq_ignore_case(strs_view(list@)[j], v@),
        decreases list.len() - i,
    {
        if eq_ignore_case_vec(&chars_of(list[i].as_str()), v) {
            assert(eq_ignore_case(strs_view(list@)[i as int], v@));
            return true;
        }
        i = i + 1;
    }
    false
}

/// The override entries normalized, de-duplicated ignoring ASCII case and
/// joined with commas.
pub fn join_no_proxy_entries(entries: &Vec<String>) -> (r: String)
    ensures
        r@ == join_char(no_proxy_list(strs_view(entries@)), ','),
{
    let ghost ev = strs_view(entries@);
    let mut list: Vec<String> = Vec::new();
    let mut k: usize = 0;
    while k < entries.len()
        invariant
            ev == strs_view(entries@),
            k <= entries@.len(),
            strs_view(list@) == no_proxy_list(ev.take(k as int)),
        decreases entries.len() - k,
    {
        assert(ev.take(k as int + 1).drop_last() =~= ev.take(k as int));
        assert(ev[k as int] == entries@[k as int]@);
        let vals = normalize_no_proxy_entry(entries[k].as_str());
        let ghost vv = strs_view(vals@);
        let ghost acc0 = strs_view(list@);
        let mut j: usize = 0;
        while j < vals.len()
            invariant
                vv == strs_view(vals@),
                j <= vals@.len(),
                strs_view(list@) == add_all_unique(acc0, vv.take(j as int)),
            decreases vals.len() - j,
        {
            assert(vv.take(j as int + 1).drop_last() =~= vv.take(j as int));
            assert(vv[j as int] == vals@[j as int]@);
            let value = chars_of(vals[j].as_str());
            if !contains_ignore_case(&list, &value) {
                let ghost before = strs_view(list@);
                list.push(str_to_string(vals[j].as_str()));
                assert(strs_view(list@) =~= before.push(vv[j as int]));
            }
            j = j + 1;
        }
        assert(vv.take(j as int) =~= vv);
        k = k + 1;
    }
    assert(ev.take(k as int) =~= ev);
    crate::archive_path::join_with(&list, ',')
}

/// The settings one system proxy entry yields: a socks proxy fills the all
/// slot whatever the assignment; an http-family one fills the assigned slots;
/// anything else yields nothing.
pub open spec fn proxy_entry_spec(assignment: ProxyAssignment, raw: Seq<char>, default_scheme: Seq<char>) -> Option<
    ProxyView,
> {
    match url_with_scheme_spec(raw, default_scheme) {
        None => None,
        Some((u, sch)) => if scheme_kind_spec(sch) == Some(ProxySchemeKind::SocksFamily) {
            Some(settings_spec(ProxySource::System, Some(u), None, None, None))
        } else if scheme_kind_spec(sch) != Some(ProxySchemeKind::HttpFamily) {
            None
        } else {
            Some(
                match assignment {
                    ProxyAssignment::All => settings_spec(
                        ProxySource::System,
                        None,
                        Some(u),
                        Some(u),
                        None,
                    ),
                    ProxyAssignment::Http => settings_spec(
                        ProxySource::System,
                        None,
                        Some(u),
                        None,
                        None,
                    ),
                    ProxyAssignment::Https => settings_spec(
                        ProxySource::System,
                        None,
                        None,
                        Some(u),
                        None,
                    ),
                },
            )
        },
    }
}

pub fn parse_proxy_url(assignment: ProxyAssignment, raw: &str, default_scheme: &str) -> (r: Option<
    ProxySettings,
>)
    ensures
        match r {
            Some(p) => proxy_entry_spec(assignment, raw@, default_scheme@) == Some(p@),
            None => proxy_entry_spec(assignment, raw@, default_scheme@) is None,
        },
{
    let (proxy_url, scheme) = match normalize_proxy_url_with_scheme(raw, default_scheme) {
        Some(x) => x,
        None => {
            return None;
        },
    };
    let kind = proxy_scheme_kind_from_scheme(scheme.as_str());
    if kind == Some(ProxySchemeKind::SocksFamily) {
        return Some(ProxySettings::new(ProxySource::System, Some(proxy_url), None, None, None));
    }
    if kind != Some(ProxySchemeKind::HttpFamily) {
        return None;
    }
    let dup = str_to_string(proxy_url.as_str());
    Some(
        match assignment {
            ProxyAssignment::All => ProxySettings::new(
                ProxySource::System,
                None,
                Some(proxy_url),
                Some(dup),
                None,
            ),
            ProxyAssignment::Http => ProxySettings::new(
                ProxySource::System,
                None,
                Some(proxy_url),
                None,
                None,
            ),
            ProxyAssignment::Https => ProxySettings::new(
                ProxySource::System,
                None,
                None,
                Some(proxy_url),
                None,
            ),
        },
    )
}

/// The trimmed, non-blank pieces of a `;`-separated list.
pub open spec fn nonblank_trimmed(parts: Seq<Seq<char>>) -> Seq<Seq<char>>
    decreases parts.len(),
{
    if parts.len() == 0 {
        Seq::empty()
    } else {
        let r = nonblank_trimmed(parts.drop_last());
        if trim(parts.last()).len() == 0 {
            r
        } else {
            r.push(trim(parts.last()))
        }
    }
}

/// All, http and https proxies gathered so far.
pub type SlotState = (Option<Seq<char>>, Option<Seq<char>>, Option<Seq<char>>);

pub open spec fn is_socks_version(k: Seq<char>) -> bool {
    k == "socks4"@ || k == "socks4a"@ || k == "socks5"@ || k == "socks5h"@
}

/// One `scheme=address` segment of a per-protocol proxy list.
pub open spec fn win_step(st: SlotState, seg: Seq<char>) -> SlotState {
    match split_once(seg, "="@) {
        None => st,
        Some((k, v)) => {
            let lk = lower_seq(trim(k));
            if lk == "http"@ {
                match proxy_entry_spec(ProxyAssignment::Http, v, "http"@) {
                    Some(p) => if p.2 is Some {
                        (st.0, p.2, st.2)
                    } else {
                        st
                    },
                    None => st,
                }
            } else if lk == "https"@ {
                match proxy_entry_spec(ProxyAssignment::Https, v, "http"@) {
                    Some(p) => if p.3 is Some {
                        (st.0, st.1, p.3)
                    } else {
                        st
                    },
                    None => st,
                }
            } else if lk == "socks"@ || is_socks_version(lk) {
                let scheme = if lk == "socks"@ {
                    "socks5"@
                } else {
                    trim(k)
                };
                match proxy_entry_spec(ProxyAssignment::All, v, scheme) {
                    Some(p) => if p.1 is Some {
                        (p.1, st.1, st.2)
                    } else {
                        st
                    },
                    None => st,
                }
            } else {
                st
            }
        },
    }
}

pub open spec fn win_fold(segs: Seq<Seq<char>>) -> SlotState
    decreases segs.len(),
{
    if segs.len() == 0 {
        (None, None, None)
    } else {
        win_step(win_fold(segs.drop_last()), segs.last())
    }
}

/// The system proxy described by a `ProxyServer` string: either one address
/// for every protocol, or `;`-separated `protocol=address` segments.
pub open spec fn windows_proxy_spec(raw: Seq<char>) -> ProxyView {
    if !raw.contains('=') {
        match url_with_scheme_spec(raw, "http"@) {
            None => settings_spec(ProxySource::System, None, None, None, None),
            Some((u, sch)) => {
                let parsed = if scheme_kind_spec(sch) == Some(ProxySchemeKind::SocksFamily) {
                    settings_spec(ProxySource::System, Some(u), None, None, None)
                } else {
                    settings_spec(ProxySource::System, None, Some(u), Some(u), None)
                };
                (ProxySource::System, parsed.1, parsed.2, parsed.3, None)
            },
        }
    } else {
        let st = win_fold(nonblank_trimmed(split_char(raw, ';')));
        (ProxySource::System, st.0, st.1, st.2, None)
    }
}

pub fn parse_windows_proxy_server(raw: &str) -> (r: ProxySettings)
    ensures
        r@ == windows_proxy_spec(raw@),
{
    let mut proxy = ProxySettings::new(ProxySource::System, None, None, None, None);
    let cs = chars_of(raw);
    if !contains_char_vec(&cs, '=') {
        if let Some((proxy_url, scheme)) = normalize_proxy_url_with_scheme(raw, "http") {
            let parsed = if proxy_scheme_kind_from_scheme(scheme.as_str()) == Some(
                ProxySchemeKind::SocksFamily,
            ) {
                ProxySettings::new(ProxySource::System, Some(proxy_url), None, None, None)
            } else {
                let dup = str_to_string(proxy_url.as_str());
                ProxySettings::new(ProxySource::System, None, Some(proxy_url), Some(dup), None)
            };
            if parsed.all_proxy.is_some() {
                proxy.all_proxy = parsed.all_proxy;
            }
            if parsed.http_proxy.is_some() {
                proxy.http_proxy = parsed.http_proxy;
            }
            if parsed.https_proxy.is_some() {
                proxy.https_proxy = parsed.https_proxy;
            }
        }
        return proxy;
    }
    let parts = split_char_vec(&cs, ';');
    let ghost pv = parts@.map_values(|p: Vec<char>| p@);
    let ghost mut segs: Seq<Seq<char>> = Seq::empty();
    let mut k: usize = 0;
    while k < parts.len()
        invariant
            pv == parts@.map_values(|p: Vec<char>| p@),
            k <= parts@.len(),
            segs == nonblank_trimmed(pv.take(k as int)),
            proxy@ == (
                ProxySource::System,
                win_fold(segs).0,
                win_fold(segs).1,
                win_fold(segs).2,
                None::<Seq<char>>,
            ),
        decreases parts.len() - k,
    {
        assert(pv.take(k as int + 1).drop_last() =~= pv.take(k as int));
        assert(pv[k as int] == parts@[k as int]@);
        let seg = trim_vec(&parts[k]);
        if seg.len() != 0 {
            let ghost prev = segs;
            proof {
                segs = segs.push(seg@);
                assert(segs.drop_last() =~= prev);
            }
            if let Some((key, value)) = split_once_vec(&seg, &chars_of("=")) {
                let tk = trim_vec(&key);
                let lk = lower_vec(&tk);
                let value_s = string_from_chars(value.as_slice());
                if crate::text::eq_vec(&lk, &chars_of("http")) {
                    if let Some(parsed) = parse_proxy_url(ProxyAssignment::Http, value_s.as_str(), "http") {
                        if parsed.http_proxy.is_some() {
                            proxy.http_proxy = parsed.http_proxy;
                        }
                    }
                } else if crate::text::eq_vec(&lk, &chars_of("https")) {
                    if let Some(parsed) = parse_proxy_url(ProxyAssignment::Https, value_s.as_str(), "http") {
                        if parsed.https_proxy.is_some() {
                            proxy.https_proxy = parsed.https_proxy;
                        }
                    }
                } else if crate::text::eq_vec(&lk, &chars_of("socks")) {
                    if let Some(parsed) = parse_proxy_url(ProxyAssignment::All, value_s.as_str(), "socks5") {
                        if parsed.all_proxy.is_some() {
                            proxy.all_proxy = parsed.all_proxy;
                        }
                    }
                } else if crate::text::eq_vec(&lk, &chars_of("socks4")) || crate::text::eq_vec(
                    &lk,
                    &chars_of("socks4a"),
                ) || crate::text::eq_vec(&lk, &chars_of("socks5")) || crate::text::eq_vec(
                    &lk,
                    &chars_of("socks5h"),
                ) {
                    let scheme = string_from_chars(tk.as_slice());
                    if let Some(parsed) = parse_proxy_url(ProxyAssignment::All, value_s.as_str(), scheme.as_str()) {
                        if parsed.all_proxy.is_some() {
                            proxy.all_proxy = parsed.all_proxy;
                        }
                    }
                }
            }
        }
        k = k + 1;
    }
    assert(pv.take(k as int) =~= pv);
    proxy
}

} // verus!
