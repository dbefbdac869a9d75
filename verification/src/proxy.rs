//! Proxy settings: normalization of the configured proxy, environment and
//! system fallbacks, and the environment variables handed to child processes.

use vstd::prelude::*;
use vstd::string::*;

use crate::archive_path::{opt_view, str_opt_view};
use crate::config::AppConfig;
use crate::error::{detail_payload, AppError, ErrorKind};
use crate::text::{
    chars_of, eq_vec, int_error_message, int_error_text, lower_seq, lower_vec, parse_u16,
    parse_u16_spec, split_once, split_once_vec, string_from_chars, str_to_string, trim, trim_str,
    trim_vec,
};

verus! {

#[derive(Debug, Clone, Copy, PartialEq, Eq, Structural)]
pub enum ProxySchemeKind {
    HttpFamily,
    SocksFamily,
}

#[derive(Debug, Clone, Copy, PartialEq, Eq, Structural)]
pub enum ProxySource {
    AppConfig,
    Environment,
    System,
}

/// No-proxy list used with the configured proxy.
pub const DEFAULT_NO_PROXY_VALUE: &'static str = "localhost,.localhost,localhost.localdomain,.local,.internal,.home.arpa,127.0.0.0/8,10.0.0.0/8,172.16.0.0/12,192.168.0.0/16,169.254.0.0/16,100.64.0.0/10,::1/128,fc00::/7,fe80::/10";

/// Resolved proxy settings; every present value is trimmed and non-empty.
#[derive(Debug)]
pub struct ProxySettings {
    pub source: ProxySource,
    pub all_proxy: Option<String>,
    pub http_proxy: Option<String>,
    pub https_proxy: Option<String>,
    pub no_proxy: Option<String>,
}

/// Source, all/http/https proxies and no-proxy list.
pub type ProxyView = (
    ProxySource,
    Option<Seq<char>>,
    Option<Seq<char>>,
    Option<Seq<char>>,
    Option<Seq<char>>,
);

impl View for ProxySettings {
    type V = ProxyView;

    open spec fn view(&self) -> ProxyView {
        (
            self.source,
            opt_view(self.all_proxy),
            opt_view(self.http_proxy),
            opt_view(self.https_proxy),
            opt_view(self.no_proxy),
        )
    }
}

/// A value kept only when it is non-blank, trimmed.
pub open spec fn norm_opt(o: Option<Seq<char>>) -> Option<Seq<char>> {
    match o {
        None => None,
        Some(v) => if trim(v).len() == 0 {
            None
        } else {
            Some(trim(v))
        },
    }
}

pub open spec fn settings_spec(
    source: ProxySource,
    a: Option<Seq<char>>,
    h: Option<Seq<char>>,
    s: Option<Seq<char>>,
    n: Option<Seq<char>>,
) -> ProxyView {
    (source, norm_opt(a), norm_opt(h), norm_opt(s), norm_opt(n))
}

pub open spec fn has_proxy_spec(v: ProxyView) -> bool {
    v.1 is Some || v.2 is Some || v.3 is Some
}

/// Trimmed, or `None` when blank.
pub fn normalize_opt_string(value: Option<String>) -> (r: Option<String>)
    ensures
        opt_view(r) == norm_opt(opt_view(value)),
{
    match value {
        None => None,
        Some(v) => {
            let t = trim_str(v.as_str());
            if t.unicode_len() == 0 {
                None
            } else {
                Some(t)
            }
        },
    }
}

fn opt_string_dup(o: &Option<String>) -> (r: Option<String>)
    ensures
        opt_view(r) == opt_view(*o),
{
    match o {
        Some(s) => Some(str_to_string(s.as_str())),
        None => None,
    }
}

impl ProxySettings {
    pub fn new(
        source: ProxySource,
        all_proxy: Option<String>,
        http_proxy: Option<String>,
        https_proxy: Option<String>,
        no_proxy: Option<String>,
    ) -> (r: Self)
        ensures
            r@ == settings_spec(
                source,
                opt_view(all_proxy),
                opt_view(http_proxy),
                opt_view(https_proxy),
                opt_view(no_proxy),
            ),
    {
        ProxySettings {
            source,
            all_proxy: normalize_opt_string(all_proxy),
            http_proxy: normalize_opt_string(http_proxy),
            https_proxy: normalize_opt_string(https_proxy),
            no_proxy: normalize_opt_string(no_proxy),
        }
    }

    pub fn has_proxy(&self) -> (b: bool)
        ensures
            b == has_proxy_spec(self@),
    {
        self.all_proxy.is_some() || self.http_proxy.is_some() || self.https_proxy.is_some()
    }

    pub fn with_no_proxy(self, no_proxy: Option<String>) -> (r: Self)
        ensures
            r@ == (self@.0, self@.1, self@.2, self@.3, norm_opt(opt_view(no_proxy))),
    {
        let mut s = self;
        s.no_proxy = normalize_opt_string(no_proxy);
        s
    }

    /// A copy of these settings.
    pub fn duplicate(&self) -> (r: Self)
        ensures
            r@ == self@,
    {
        ProxySettings {
            source: self.source,
            all_proxy: opt_string_dup(&self.all_proxy),
            http_proxy: opt_string_dup(&self.http_proxy),
            https_proxy: opt_string_dup(&self.https_proxy),
            no_proxy: opt_string_dup(&self.no_proxy),
        }
    }
}

/// The proxy address fields as entered by the user.
#[derive(Debug)]
pub struct ProxyFields {
    pub url: String,
    pub port: String,
    pub username: String,
    pub password: String,
}

impl ProxyFields {
    /// Trims every field; without an address the other fields are dropped.
    pub fn new(url: String, port: String, username: String, password: String) -> (r: Self)
        ensures
            r.url@ == trim(url@),
            trim(url@).len() == 0 ==> r.port@.len() == 0 && r.username@.len() == 0
                && r.password@.len() == 0,
            trim(url@).len() != 0 ==> r.port@ == trim(port@) && r.username@ == trim(username@)
                && r.password@ == trim(password@),
    {
        let url = trim_str(url.as_str());
        if url.unicode_len() == 0 {
            return ProxyFields {
                url,
                port: String::new(),
                username: String::new(),
                password: String::new(),
            };
        }
        ProxyFields {
            url,
            port: trim_str(port.as_str()),
            username: trim_str(username.as_str()),
            password: trim_str(password.as_str()),
        }
    }
}

/// `raw` trimmed with an explicit scheme (the default one when it has none),
/// and that scheme trimmed and lower-cased; `None` when `raw` is blank.
pub open spec fn url_with_scheme_spec(raw: Seq<char>, default_scheme: Seq<char>) -> Option<
    (Seq<char>, Seq<char>),
> {
    let t = trim(raw);
    if t.len() == 0 {
        None
    } else {
        match split_once(t, "://"@) {
            Some((scheme, _)) => Some((t, lower_seq(trim(scheme)))),
            None => Some((default_scheme + "://"@ + t, lower_seq(default_scheme))),
        }
    }
}

pub fn normalize_proxy_url_with_scheme(raw: &str, default_scheme: &str) -> (r: Option<
    (String, String),
>)
    ensures
        match r {
            Some((u, s)) => url_with_scheme_spec(raw@, default_scheme@) == Some((u@, s@)),
            None => url_with_scheme_spec(raw@, default_scheme@) is None,
        },
{
    let t = trim_vec(&chars_of(raw));
    if t.len() == 0 {
        return None;
    }
    let sep = chars_of("://");
    match split_once_vec(&t, &sep) {
        Some((scheme, _)) => {
            let s = lower_vec(&trim_vec(&scheme));
            Some((string_from_chars(t.as_slice()), string_from_chars(s.as_slice())))
        },
        None => {
            let mut u = str_to_string(default_scheme);
            u.append("://");
            u.append(string_from_chars(t.as_slice()).as_str());
            let s = lower_vec(&chars_of(default_scheme));
            Some((u, string_from_chars(s.as_slice())))
        },
    }
}

/// The family of a proxy scheme (case-insensitive, surrounding blanks ignored).
pub open spec fn scheme_kind_spec(scheme: Seq<char>) -> Option<ProxySchemeKind> {
    let s = lower_seq(trim(scheme));
    if s == "http"@ || s == "https"@ {
        Some(ProxySchemeKind::HttpFamily)
    } else if s == "socks"@ || s == "socks4"@ || s == "socks4a"@ || s == "socks5"@ || s
        == "socks5h"@ {
        Some(ProxySchemeKind::SocksFamily)
    } else {
        None
    }
}

fn vec_is_str(v: &Vec<char>, s: &str) -> (b: bool)
    ensures
        b == (v@ == s@),
{
    eq_vec(v, &chars_of(s))
}

pub fn proxy_scheme_kind_from_scheme(scheme: &str) -> (r: Option<ProxySchemeKind>)
    ensures
        r == scheme_kind_spec(scheme@),
{
    let s = lower_vec(&trim_vec(&chars_of(scheme)));
    if vec_is_str(&s, "http") || vec_is_str(&s, "https") {
        Some(ProxySchemeKind::HttpFamily)
    } else if vec_is_str(&s, "socks") || vec_is_str(&s, "socks4") || vec_is_str(&s, "socks4a")
        || vec_is_str(&s, "socks5") || vec_is_str(&s, "socks5h") {
        Some(ProxySchemeKind::SocksFamily)
    } else {
        None
    }
}

/// The family of the scheme written before `://` in `url`.
pub open spec fn url_scheme_kind_spec(url: Seq<char>) -> Option<ProxySchemeKind> {
    match split_once(trim(url), "://"@) {
        Some((scheme, _)) => scheme_kind_spec(scheme),
        None => None,
    }
}

pub fn proxy_scheme_kind(url: &str) -> (r: Option<ProxySchemeKind>)
    ensures
        r == url_scheme_kind_spec(url@),
{
    let t = trim_vec(&chars_of(url));
    match split_once_vec(&t, &chars_of("://")) {
        Some((scheme, _)) => proxy_scheme_kind_from_scheme(string_from_chars(scheme.as_slice()).as_str()),
        None => None,
    }
}

/// The serialization of the URL that `url::Url::parse` reads from `s`, or
/// the text of its parse error.
pub uninterp spec fn parsed_url(s: Seq<char>) -> Result<Seq<char>, Seq<char>>;

/// The serialization after `Url::set_port(Some(port))` on the URL serialized
/// as `u`, or `None` when the URL refuses a port.
pub uninterp spec fn url_port_set(u: Seq<char>, port: u16) -> Option<Seq<char>>;

/// The serialization after `Url::set_username(username)`, or `None` when refused.
pub uninterp spec fn url_username_set(u: Seq<char>, username: Seq<char>) -> Option<Seq<char>>;

/// The serialization after `Url::set_password(password)`, or `None` when refused.
pub uninterp spec fn url_password_set(u: Seq<char>, password: Option<Seq<char>>) -> Option<
    Seq<char>,
>;

pub open spec fn result_view(r: Result<String, String>) -> Result<Seq<char>, Seq<char>> {
    match r {
        Ok(u) => Ok(u@),
        Err(e) => Err(e@),
    }
}

/// `url::Url::parse`: the URL is returned by its serialization (its
/// `Display`), a failure by its error's message. Both are taken as given.
#[verifier::external_body]
fn url_parse(s: &str) -> (r: Result<String, String>)
    ensures
        result_view(r) == parsed_url(s@),
{
    match reqwest::Url::parse(s) {
        Ok(u) => Ok(u.to_string()),
        Err(e) => Err(e.to_string()),
    }
}

/// `url::Url::set_port(Some(port))` on the URL serialized as `u` (the url
/// crate re-reads a serialization as the same URL); `None` when refused.
#[verifier::external_body]
fn url_set_port(u: &str, port: u16) -> (r: Option<String>)
    ensures
        opt_view(r) == url_port_set(u@, port),
{
    let mut url = match reqwest::Url::parse(u) {
        Ok(url) => url,
        Err(_) => return None,
    };
    match url.set_port(Some(port)) {
        Ok(()) => Some(url.to_string()),
        Err(()) => None,
    }
}

/// `url::Url::set_username(username)` on the URL serialized as `u`.
#[verifier::external_body]
fn url_set_username(u: &str, username: &str) -> (r: Option<String>)
    ensures
        opt_view(r) == url_username_set(u@, username@),
{
    let mut url = match reqwest::Url::parse(u) {
        Ok(url) => url,
        Err(_) => return None,
    };
    match url.set_username(username) {
        Ok(()) => Some(url.to_string()),
        Err(()) => None,
    }
}

/// `url::Url::set_password(password)` on the URL serialized as `u`.
#[verifier::external_body]
fn url_set_password(u: &str, password: Option<&str>) -> (r: Option<String>)
    ensures
        opt_view(r) == url_password_set(u@, str_opt_view(password)),
{
    let mut url = match reqwest::Url::parse(u) {
        Ok(url) => url,
        Err(_) => return None,
    };
    match url.set_password(password) {
        Ok(()) => Some(url.to_string()),
        Err(()) => None,
    }
}

pub open spec fn invalid_proxy_message() -> Seq<char> {
    "代理地址无效"@
}

pub open spec fn invalid_proxy_detail(e: Seq<char>) -> Seq<char> {
    "代理地址无效: "@ + e
}

/// The proxy URL built from the address fields (`Ok(None)` without an
/// address), or the message of the configuration error.
pub open spec fn proxy_url_spec(url: Seq<char>, port: Seq<char>, username: Seq<char>, password: Seq<char>) -> Result<
    Option<Seq<char>>,
    Seq<char>,
> {
    let t = trim(url);
    if t.len() == 0 {
        Ok(None)
    } else {
        match parsed_url(t) {
            Err(e) => Err(invalid_proxy_detail(e)),
            Ok(u0) => {
                let tp = trim(port);
                let with_port: Result<Seq<char>, Seq<char>> = if tp.len() == 0 {
                    Ok(u0)
                } else {
                    match parse_u16_spec(tp) {
                        Err(k) => Err(invalid_proxy_detail(int_error_message(k))),
                        Ok(p) => match url_port_set(u0, p) {
                            Some(u) => Ok(u),
                            None => Err(invalid_proxy_message()),
                        },
                    }
                };
                match with_port {
                    Err(m) => Err(m),
                    Ok(u1) => {
                        let tu = trim(username);
                        let tw = trim(password);
                        if tu.len() == 0 && tw.len() == 0 {
                            Ok(Some(u1))
                        } else {
                            match url_username_set(u1, tu) {
                                None => Err(invalid_proxy_message()),
                                Some(u2) => match url_password_set(
                                    u2,
                                    if tw.len() == 0 {
                                        None
                                    } else {
                                        Some(tw)
                                    },
                                ) {
                                    None => Err(invalid_proxy_message()),
                                    Some(u3) => Ok(Some(u3)),
                                },
                            }
                        }
                    },
                }
            },
        }
    }
}

pub open spec fn is_config_error(e: AppError, msg: Seq<char>) -> bool {
    e@.0 == ErrorKind::Config && e@.1 == detail_payload(msg)
}

fn invalid_proxy_error(detail: &str) -> (e: AppError)
    ensures
        is_config_error(e, invalid_proxy_detail(detail@)),
{
    let mut m = str_to_string("代理地址无效: ");
    m.append(detail);
    AppError::config(m.as_str())
}

/// Build the proxy URL from its fields: the address, then an optional port
/// and optional credentials.
pub fn build_proxy_url(url: &str, port: &str, username: &str, password: &str) -> (r: Result<
    Option<String>,
    AppError,
>)
    ensures
        match r {
            Ok(o) => proxy_url_spec(url@, port@, username@, password@) == Ok::<
                Option<Seq<char>>,
                Seq<char>,
            >(opt_view(o)),
            Err(e) => proxy_url_spec(url@, port@, username@, password@) matches Err(m)
                && is_config_error(e, m),
        },
{
    let t = trim_str(url);
    if t.unicode_len() == 0 {
        return Ok(None);
    }
    let mut current = match url_parse(t.as_str()) {
        Ok(u) => u,
        Err(e) => {
            return Err(invalid_proxy_error(e.as_str()));
        },
    };
    let tp = trim_str(port);
    if tp.unicode_len() != 0 {
        let p = match parse_u16(tp.as_str()) {
            Ok(p) => p,
            Err(k) => {
                return Err(invalid_proxy_error(int_error_text(k)));
            },
        };
        current = match url_set_port(current.as_str(), p) {
            Some(u) => u,
            None => {
                return Err(AppError::config("代理地址无效"));
            },
        };
    }
    let tu = trim_str(username);
    let tw = trim_str(password);
    if tu.unicode_len() != 0 || tw.unicode_len() != 0 {
        current = match url_set_username(current.as_str(), tu.as_str()) {
            Some(u) => u,
            None => {
                return Err(AppError::config("代理地址无效"));
            },
        };
        let pw: Option<&str> = if tw.unicode_len() == 0 {
            None
        } else {
            Some(tw.as_str())
        };
        current = match url_set_password(current.as_str(), pw) {
            Some(u) => u,
            None => {
                return Err(AppError::config("代理地址无效"));
            },
        };
    }
    Ok(Some(current))
}

pub open spec fn unsupported_scheme_message() -> Seq<char> {
    "代理地址仅支持 http/https/socks/socks4/socks4a/socks5/socks5h 协议"@
}

/// Judges a parsed proxy URL (its serialization, or the parse error's
/// message): only http- and socks-family schemes are accepted.
pub fn check_proxy_scheme(parsed: Result<String, String>) -> (r: Result<(), AppError>)
    ensures
        match parsed {
            Err(e) => r matches Err(x) && is_config_error(x, invalid_proxy_detail(e@)),
            Ok(u) => if url_scheme_kind_spec(u@) is Some {
                r is Ok
            } else {
                r matches Err(x) && is_config_error(x, unsupported_scheme_message())
            },
        },
{
    match parsed {
        Err(e) => Err(invalid_proxy_error(e.as_str())),
        Ok(u) => {
            if proxy_scheme_kind(u.as_str()).is_some() {
                Ok(())
            } else {
                Err(
                    AppError::config(
                        "代理地址仅支持 http/https/socks/socks4/socks4a/socks5/socks5h 协议",
                    ),
                )
            }
        },
    }
}

/// The URL must parse and use a supported scheme.
pub fn ensure_supported_proxy_scheme(url: &str) -> (r: Result<(), AppError>)
    ensures
        match parsed_url(url@) {
            Err(e) => r matches Err(x) && is_config_error(x, invalid_proxy_detail(e)),
            Ok(u) => if url_scheme_kind_spec(u) is Some {
                r is Ok
            } else {
                r matches Err(x) && is_config_error(x, unsupported_scheme_message())
            },
        },
{
    check_proxy_scheme(url_parse(url))
}

/// Settings for a single proxy URL: a socks proxy serves everything, an
/// http one serves http and https.
pub open spec fn single_url_settings_spec(source: ProxySource, url: Seq<char>) -> ProxyView {
    if url_scheme_kind_spec(url) == Some(ProxySchemeKind::SocksFamily) {
        settings_spec(source, Some(url), None, None, None)
    } else {
        settings_spec(source, None, Some(url), Some(url), None)
    }
}

pub fn settings_for_proxy_url(source: ProxySource, url: String) -> (r: ProxySettings)
    ensures
        r@ == single_url_settings_spec(source, url@),
{
    if proxy_scheme_kind(url.as_str()) == Some(ProxySchemeKind::SocksFamily) {
        ProxySettings::new(source, Some(url), None, None, None)
    } else {
        let dup = str_to_string(url.as_str());
        ProxySettings::new(source, None, Some(url), Some(dup), None)
    }
}

/// The settings for one proxy URL built from `fields`, with `no_proxy`.
pub open spec fn single_url_spec(
    source: ProxySource,
    fields: (Seq<char>, Seq<char>, Seq<char>, Seq<char>),
    no_proxy: Option<Seq<char>>,
) -> Result<Option<ProxyView>, Seq<char>> {
    match proxy_url_spec(fields.0, fields.1, fields.2, fields.3) {
        Err(m) => Err(m),
        Ok(None) => Ok(None),
        Ok(Some(url)) => match parsed_url(url) {
            Err(e) => Err(invalid_proxy_detail(e)),
            Ok(u) => if url_scheme_kind_spec(u) is None {
                Err(unsupported_scheme_message())
            } else {
                let v = single_url_settings_spec(source, url);
                Ok(Some((v.0, v.1, v.2, v.3, norm_opt(no_proxy))))
            },
        },
    }
}

pub open spec fn fields_view(f: ProxyFields) -> (Seq<char>, Seq<char>, Seq<char>, Seq<char>) {
    (f.url@, f.port@, f.username@, f.password@)
}

pub fn build_single_url_proxy_settings(
    source: ProxySource,
    fields: &ProxyFields,
    no_proxy: Option<String>,
) -> (r: Result<Option<ProxySettings>, AppError>)
    ensures
        match r {
            Ok(Some(p)) => single_url_spec(source, fields_view(*fields), opt_view(no_proxy))
                == Ok::<Option<ProxyView>, Seq<char>>(Some(p@)),
            Ok(None) => single_url_spec(source, fields_view(*fields), opt_view(no_proxy)) == Ok::<
                Option<ProxyView>,
                Seq<char>,
            >(None),
            Err(e) => single_url_spec(source, fields_view(*fields), opt_view(no_proxy)) matches Err(
                m,
            ) && is_config_error(e, m),
        },
{
    let url = match build_proxy_url(
        fields.url.as_str(),
        fields.port.as_str(),
        fields.username.as_str(),
        fields.password.as_str(),
    ) {
        Err(e) => {
            return Err(e);
        },
        Ok(None) => {
            return Ok(None);
        },
        Ok(Some(u)) => u,
    };
    match ensure_supported_proxy_scheme(url.as_str()) {
        Err(e) => {
            return Err(e);
        },
        Ok(()) => {},
    }
    let settings = settings_for_proxy_url(source, url);
    Ok(Some(settings.with_no_proxy(no_proxy)))
}

pub open spec fn config_fields(config: AppConfig) -> (Seq<char>, Seq<char>, Seq<char>, Seq<char>) {
    let u = trim(config.proxy_url@);
    if u.len() == 0 {
        (u, Seq::empty(), Seq::empty(), Seq::empty())
    } else {
        (u, trim(config.proxy_port@), trim(config.proxy_username@), trim(config.proxy_password@))
    }
}

/// The proxy configured in the application settings.
pub fn parse_configured_proxy_settings(config: &AppConfig) -> (r: Result<
    Option<ProxySettings>,
    AppError,
>)
    ensures
        match r {
            Ok(Some(p)) => single_url_spec(
                ProxySource::AppConfig,
                config_fields(*config),
                Some(DEFAULT_NO_PROXY_VALUE@),
            ) == Ok::<Option<ProxyView>, Seq<char>>(Some(p@)),
            Ok(None) => single_url_spec(
                ProxySource::AppConfig,
                config_fields(*config),
                Some(DEFAULT_NO_PROXY_VALUE@),
            ) == Ok::<Option<ProxyView>, Seq<char>>(None),
            Err(e) => single_url_spec(
                ProxySource::AppConfig,
                config_fields(*config),
                Some(DEFAULT_NO_PROXY_VALUE@),
            ) matches Err(m) && is_config_error(e, m),
        },
{
    let fields = ProxyFields::new(
        str_to_string(config.proxy_url.as_str()),
        str_to_string(config.proxy_port.as_str()),
        str_to_string(config.proxy_username.as_str()),
        str_to_string(config.proxy_password.as_str()),
    );
    assert(fields_view(fields) == config_fields(*config)) by {
        if trim(config.proxy_url@).len() == 0 {
            assert(fields.port@ =~= Seq::<char>::empty());
            assert(fields.username@ =~= Seq::<char>::empty());
            assert(fields.password@ =~= Seq::<char>::empty());
        }
    }
    build_single_url_proxy_settings(
        ProxySource::AppConfig,
        &fields,
        Some(str_to_string(DEFAULT_NO_PROXY_VALUE)),
    )
}

/// The proxy variables of the process environment: for each of the all,
/// http, https and no-proxy slots the upper-case and the lower-case variable.
#[derive(Debug)]
pub struct EnvProxyVars {
    pub all_upper: Option<String>,
    pub all_lower: Option<String>,
    pub http_upper: Option<String>,
    pub http_lower: Option<String>,
    pub https_upper: Option<String>,
    pub https_lower: Option<String>,
    pub no_upper: Option<String>,
    pub no_lower: Option<String>,
}

/// The value of a slot: the first variable that is set, trimmed, kept only
/// when non-blank.
pub open spec fn first_env_spec(upper: Option<Seq<char>>, lower: Option<Seq<char>>) -> Option<
    Seq<char>,
> {
    match upper {
        Some(v) => norm_opt(Some(v)),
        None => norm_opt(lower),
    }
}

pub fn first_env_value(upper: &Option<String>, lower: &Option<String>) -> (r: Option<String>)
    ensures
        opt_view(r) == first_env_spec(opt_view(*upper), opt_view(*lower)),
{
    match upper {
        Some(v) => normalize_opt_string(Some(str_to_string(v.as_str()))),
        None => normalize_opt_string(opt_string_dup(lower)),
    }
}

pub open spec fn kind_is(url: Option<Seq<char>>, k: ProxySchemeKind) -> bool {
    url matches Some(u) && url_scheme_kind_spec(u) == Some(k)
}

pub open spec fn or_opt(a: Option<Seq<char>>, b: Option<Seq<char>>) -> Option<Seq<char>> {
    if a is Some {
        a
    } else {
        b
    }
}

/// The environment proxy: an http-family `ALL_PROXY` fills in the http and
/// https slots; a socks-family http or https proxy moves to the all slot.
/// `None` when no proxy results.
pub open spec fn environment_spec(
    a: Option<Seq<char>>,
    h: Option<Seq<char>>,
    s: Option<Seq<char>>,
    n: Option<Seq<char>>,
) -> Option<ProxyView> {
    let (a1, h1, s1) = if kind_is(a, ProxySchemeKind::HttpFamily) {
        (None, or_opt(h, a), or_opt(s, a))
    } else {
        (a, h, s)
    };
    let (a2, h2) = if kind_is(h1, ProxySchemeKind::SocksFamily) {
        (or_opt(a1, h1), None)
    } else {
        (a1, h1)
    };
    let (a3, s3) = if kind_is(s1, ProxySchemeKind::SocksFamily) {
        (or_opt(a2, s1), None)
    } else {
        (a2, s1)
    };
    let v = settings_spec(ProxySource::Environment, a3, h2, s3, n);
    if has_proxy_spec(v) {
        Some(v)
    } else {
        None
    }
}

fn is_kind(url: &Option<String>, k: ProxySchemeKind) -> (b: bool)
    ensures
        b == kind_is(opt_view(*url), k),
{
    match url {
        Some(u) => proxy_scheme_kind(u.as_str()) == Some(k),
        None => false,
    }
}

fn or_string(a: Option<String>, b: &Option<String>) -> (r: Option<String>)
    ensures
        opt_view(r) == or_opt(opt_view(a), opt_view(*b)),
{
    if a.is_some() {
        a
    } else {
        opt_string_dup(b)
    }
}

/// The proxy taken from the environment variables.
pub fn environment_proxy_settings(vars: &EnvProxyVars) -> (r: Option<ProxySettings>)
    ensures
        match r {
            Some(p) => environment_spec(
                first_env_spec(opt_view(vars.all_upper), opt_view(vars.all_lower)),
                first_env_spec(opt_view(vars.http_upper), opt_view(vars.http_lower)),
                first_env_spec(opt_view(vars.https_upper), opt_view(vars.https_lower)),
                first_env_spec(opt_view(vars.no_upper), opt_view(vars.no_lower)),
            ) == Some(p@),
            None => environment_spec(
                first_env_spec(opt_view(vars.all_upper), opt_view(vars.all_lower)),
                first_env_spec(opt_view(vars.http_upper), opt_view(vars.http_lower)),
                first_env_spec(opt_view(vars.https_upper), opt_view(vars.https_lower)),
                first_env_spec(opt_view(vars.no_upper), opt_view(vars.no_lower)),
            ) is None,
        },
{
    let a = first_env_value(&vars.all_upper, &vars.all_lower);
    let h = first_env_value(&vars.http_upper, &vars.http_lower);
    let s = first_env_value(&vars.https_upper, &vars.https_lower);
    let n = first_env_value(&vars.no_upper, &vars.no_lower);
    let (a1, h1, s1) = if is_kind(&a, ProxySchemeKind::HttpFamily) {
        let h1 = or_string(h, &a);
        let s1 = or_string(s, &a);
        (None, h1, s1)
    } else {
        (a, h, s)
    };
    let (a2, h2) = if is_kind(&h1, ProxySchemeKind::SocksFamily) {
        (or_string(a1, &h1), None)
    } else {
        (a1, h1)
    };
    let (a3, s3) = if is_kind(&s1, ProxySchemeKind::SocksFamily) {
        (or_string(a2, &s1), None)
    } else {
        (a2, s1)
    };
    let p = ProxySettings::new(ProxySource::Environment, a3, h2, s3, n);
    if p.has_proxy() {
        Some(p)
    } else {
        None
    }
}

pub open spec fn opt_settings_view(o: Option<ProxySettings>) -> Option<ProxyView> {
    match o {
        Some(p) => Some(p@),
        None => None,
    }
}

/// Priority: the configured proxy, else the environment, else the system
/// proxy; whichever is picked must carry a proxy.
pub open spec fn fallback_spec(
    configured: Option<ProxyView>,
    environment: Option<ProxyView>,
    system: Option<ProxyView>,
) -> Option<ProxyView> {
    let picked = if configured matches Some(c) && has_proxy_spec(c) {
        configured
    } else if environment is Some {
        environment
    } else {
        system
    };
    match picked {
        Some(p) => if has_proxy_spec(p) {
            Some(p)
        } else {
            None
        },
        None => None,
    }
}

pub fn resolve_proxy_with_fallbacks(
    configured: Option<ProxySettings>,
    environment: Option<ProxySettings>,
    system: Option<ProxySettings>,
) -> (r: Option<ProxySettings>)
    ensures
        opt_settings_view(r) == fallback_spec(
            opt_settings_view(configured),
            opt_settings_view(environment),
            opt_settings_view(system),
        ),
{
    let picked = match configured {
        Some(c) if c.has_proxy() => Some(c),
        _ => if environment.is_some() {
            environment
        } else {
            system
        },
    };
    match picked {
        Some(p) => if p.has_proxy() {
            Some(p)
        } else {
            None
        },
        None => None,
    }
}

/// The environment slots after picking the first set variable of each.
pub open spec fn env_slots(env: EnvProxyVars) -> Option<ProxyView> {
    environment_spec(
        first_env_spec(opt_view(env.all_upper), opt_view(env.all_lower)),
        first_env_spec(opt_view(env.http_upper), opt_view(env.http_lower)),
        first_env_spec(opt_view(env.https_upper), opt_view(env.https_lower)),
        first_env_spec(opt_view(env.no_upper), opt_view(env.no_lower)),
    )
}

/// The effective proxy, or the message of the configuration error.
pub open spec fn resolved_spec(config: AppConfig, env: EnvProxyVars, system: Option<ProxyView>) -> Result<
    Option<ProxyView>,
    Seq<char>,
> {
    match single_url_spec(
        ProxySource::AppConfig,
        config_fields(config),
        Some(DEFAULT_NO_PROXY_VALUE@),
    ) {
        Err(m) => Err(m),
        Ok(c) => Ok(fallback_spec(c, env_slots(env), system)),
    }
}

/// `r` is what `resolved` describes.
pub open spec fn resolution_matches(
    r: Result<Option<ProxySettings>, AppError>,
    resolved: Result<Option<ProxyView>, Seq<char>>,
) -> bool {
    match resolved {
        Err(m) => r matches Err(e) && is_config_error(e, m),
        Ok(o) => r matches Ok(x) && opt_settings_view(x) == o,
    }
}

/// The effective proxy: the configured one when it parses, with the
/// environment and system proxies as fallbacks.
pub fn resolve_proxy_from_config(
    config: &AppConfig,
    env: &EnvProxyVars,
    system: Option<ProxySettings>,
) -> (r: Result<Option<ProxySettings>, AppError>)
    ensures
        resolution_matches(r, resolved_spec(*config, *env, opt_settings_view(system))),
{
    let configured = parse_configured_proxy_settings(config)?;
    Ok(resolve_proxy_with_fallbacks(configured, environment_proxy_settings(env), system))
}

/// Environment variables naming the proxy, each under its upper- and
/// lower-case name, in the order all, http, https, no-proxy.
pub open spec fn env_pairs_spec(v: ProxyView) -> Seq<(Seq<char>, Seq<char>)> {
    slot_pairs("ALL_PROXY"@, "all_proxy"@, v.1) + slot_pairs("HTTP_PROXY"@, "http_proxy"@, v.2)
        + slot_pairs("HTTPS_PROXY"@, "https_proxy"@, v.3) + slot_pairs(
        "NO_PROXY"@,
        "no_proxy"@,
        v.4,
    )
}

pub open spec fn slot_pairs(upper: Seq<char>, lower: Seq<char>, value: Option<Seq<char>>) -> Seq<
    (Seq<char>, Seq<char>),
> {
    match value {
        Some(x) => seq![(upper, x), (lower, x)],
        None => Seq::empty(),
    }
}

pub open spec fn pairs_view(v: Seq<(String, String)>) -> Seq<(Seq<char>, Seq<char>)> {
    v.map_values(|p: (String, String)| (p.0@, p.1@))
}

fn push_slot(out: &mut Vec<(String, String)>, upper: &str, lower: &str, value: &Option<String>)
    ensures
        pairs_view(final(out)@) == pairs_view(old(out)@) + slot_pairs(upper@, lower@, opt_view(*value)),
{
    let ghost before = pairs_view(out@);
    match value {
        Some(v) => {
            out.push((str_to_string(upper), str_to_string(v.as_str())));
            out.push((str_to_string(lower), str_to_string(v.as_str())));
            assert(pairs_view(out@) =~= before + seq![(upper@, v@), (lower@, v@)]);
        },
        None => {
            assert(pairs_view(out@) =~= before + Seq::<(Seq<char>, Seq<char>)>::empty());
        },
    }
}

/// The variables that hand `proxy` to a child process.
pub fn proxy_env_pairs(proxy: &ProxySettings) -> (r: Vec<(String, String)>)
    ensures
        pairs_view(r@) == env_pairs_spec(proxy@),
{
    let mut out: Vec<(String, String)> = Vec::new();
    assert(pairs_view(out@) =~= Seq::<(Seq<char>, Seq<char>)>::empty());
    push_slot(&mut out, "ALL_PROXY", "all_proxy", &proxy.all_proxy);
    push_slot(&mut out, "HTTP_PROXY", "http_proxy", &proxy.http_proxy);
    push_slot(&mut out, "HTTPS_PROXY", "https_proxy", &proxy.https_proxy);
    push_slot(&mut out, "NO_PROXY", "no_proxy", &proxy.no_proxy);
    assert(pairs_view(out@) =~= env_pairs_spec(proxy@));
    out
}

/// The variables handing the resolved proxy (if any) to a child process.
pub open spec fn env_vars_spec(resolved: Result<Option<ProxyView>, Seq<char>>) -> Result<
    Seq<(Seq<char>, Seq<char>)>,
    Seq<char>,
> {
    match resolved {
        Err(m) => Err(m),
        Ok(Some(p)) => Ok(env_pairs_spec(p)),
        Ok(None) => Ok(Seq::empty()),
    }
}

pub open spec fn env_vars_match(
    r: Result<Vec<(String, String)>, AppError>,
    expected: Result<Seq<(Seq<char>, Seq<char>)>, Seq<char>>,
) -> bool {
    match expected {
        Err(m) => r matches Err(e) && is_config_error(e, m),
        Ok(v) => r matches Ok(x) && pairs_view(x@) == v,
    }
}

/// The proxy environment for child processes: the resolved proxy's
/// variables, or none.
pub fn build_proxy_env_vars(
    config: &AppConfig,
    env: &EnvProxyVars,
    system: Option<ProxySettings>,
) -> (r: Result<Vec<(String, String)>, AppError>)
    ensures
        env_vars_match(r, env_vars_spec(resolved_spec(*config, *env, opt_settings_view(system)))),
{
    match resolve_proxy_from_config(config, env, system)? {
        Some(p) => Ok(proxy_env_pairs(&p)),
        None => {
            let v: Vec<(String, String)> = Vec::new();
            assert(pairs_view(v@) =~= Seq::<(Seq<char>, Seq<char>)>::empty());
            Ok(v)
        },
    }
}

/// What becomes of one proxy address when the HTTP client is built, given
/// the parse error of the address if it did not parse: a usable address is
/// used (`true`); an unusable one is skipped (`false`) unless it comes from
/// the application settings, where it is an error.
pub fn proxy_address_outcome(source: ProxySource, parse_error: Option<&str>) -> (r: Result<bool, AppError>)
    ensures
        match parse_error {
            None => r == Ok::<bool, AppError>(true),
            Some(e) => if source == ProxySource::AppConfig {
                r matches Err(x) && x@ == (ErrorKind::Config, detail_payload("代理地址无效: "@ + e@))
            } else {
                r == Ok::<bool, AppError>(false)
            },
        },
{
    match parse_error {
        None => Ok(true),
        Some(e) => {
            if source == ProxySource::AppConfig {
                let m = crate::text::concat_str("代理地址无效: ", e);
                Err(AppError::config(m.as_str()))
            } else {
                Ok(false)
            }
        },
    }
}

/// Proxy priority: a configured proxy wins over the environment, which wins
/// over the system proxy; whatever is resolved carries a proxy.
pub proof fn law_proxy_priority(
    configured: Option<ProxyView>,
    environment: Option<ProxyView>,
    system: Option<ProxyView>,
)
    ensures
        (configured matches Some(c) && has_proxy_spec(c)) ==> fallback_spec(
            configured,
            environment,
            system,
        ) == configured,
        (!(configured matches Some(c) && has_proxy_spec(c)) && (environment matches Some(e)
            && has_proxy_spec(e))) ==> fallback_spec(configured, environment, system)
            == environment,
        (!(configured matches Some(c) && has_proxy_spec(c)) && environment is None) ==> fallback_spec(
            configured,
            environment,
            system,
        ) == (if system matches Some(s) && has_proxy_spec(s) {
            system
        } else {
            None
        }),
        fallback_spec(configured, environment, system) matches Some(p) ==> has_proxy_spec(p),
{
}

/// The configured proxy is always used with the default no-proxy list, and
/// from the application settings as its source.
pub proof fn law_configured_proxy_no_proxy(config: AppConfig)
    ensures
        single_url_spec(ProxySource::AppConfig, config_fields(config), Some(DEFAULT_NO_PROXY_VALUE@))
            matches Ok(Some(v)) ==> v.0 == ProxySource::AppConfig && v.4 == norm_opt(
            Some(DEFAULT_NO_PROXY_VALUE@),
        ),
{
}

} // verus!
