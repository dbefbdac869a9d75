//! Download sources and proxy selection derived from the settings, with the
//! mainland-acceleration mirrors.

use vstd::prelude::*;
use vstd::string::*;

use crate::config::AppConfig;
use crate::error::AppError;
use crate::proxy::{
    build_proxy_env_vars, env_vars_match, env_vars_spec, opt_settings_view, resolution_matches,
    resolve_proxy_from_config, resolved_spec, EnvProxyVars, ProxySettings,
};
use crate::text::{
    chars_of, ends_with, ends_with_vec, string_from_chars, str_to_string, trim, trim_end_char,
    trim_end_char_vec, trim_vec,
};

verus! {

pub const MAINLAND_NPM_REGISTRY: &'static str = "https://npmreg.proxy.ustclug.org/";
pub const MAINLAND_NODEJS_MIRROR: &'static str = "https://mirrors.ustc.edu.cn/node/";
pub const MAINLAND_PYPI_MIRROR: &'static str = "https://mirrors.ustc.edu.cn/pypi/";
pub const MAINLAND_PYTHON_BUILD_STANDALONE_BASE: &'static str = "https://mirrors.ustc.edu.cn/github-release/astral-sh/python-build-standalone/LatestRelease/";
pub const MAINLAND_UV_RELEASE_BASE: &'static str = "https://mirrors.ustc.edu.cn/github-release/astral-sh/uv/LatestRelease/";
pub const MAINLAND_ASTRBOT_DOWNLOAD_PROXY: &'static str = "https://gh-proxy.com/";

/// The simple index of a PyPI mirror (`https://pypi.org/simple` when blank).
pub open spec fn default_index_spec(mirror: Seq<char>) -> Seq<char> {
    if trim(mirror).len() == 0 {
        "https://pypi.org/simple"@
    } else {
        let m = trim_end_char(trim(mirror), '/');
        if ends_with(m, "/simple"@) {
            m
        } else {
            m + "/simple"@
        }
    }
}

pub fn normalize_default_index(pypi_mirror: &str) -> (r: String)
    ensures
        r@ == default_index_spec(pypi_mirror@),
{
    let t = trim_vec(&chars_of(pypi_mirror));
    if t.len() == 0 {
        return str_to_string("https://pypi.org/simple");
    }
    let m = trim_end_char_vec(&t, '/');
    let s = string_from_chars(m.as_slice());
    if ends_with_vec(&m, &chars_of("/simple")) {
        s
    } else {
        let mut r = s;
        r.append("/simple");
        r
    }
}

/// `url` behind a proxy prefix (unchanged when the prefix is empty).
pub open spec fn wrap_spec(proxy: Seq<char>, url: Seq<char>) -> Seq<char> {
    if proxy.len() == 0 {
        url
    } else {
        trim_end_char(proxy, '/') + "/"@ + url
    }
}

pub fn wrap_with_proxy(proxy: &str, url: &str) -> (r: String)
    ensures
        r@ == wrap_spec(proxy@, url@),
{
    if proxy.unicode_len() == 0 {
        return str_to_string(url);
    }
    let base = trim_end_char_vec(&chars_of(proxy), '/');
    let mut r = string_from_chars(base.as_slice());
    r.append("/");
    r.append(url);
    r
}

pub fn mainland_acceleration(config: &AppConfig) -> (b: bool)
    ensures
        b == config.mainland_acceleration,
{
    config.mainland_acceleration
}

/// The proxy for HTTP clients: none in mainland mode, else the resolved one.
pub fn proxy_settings(config: &AppConfig, env: &EnvProxyVars, system: Option<ProxySettings>) -> (r:
    Result<Option<ProxySettings>, AppError>)
    ensures
        config.mainland_acceleration ==> r matches Ok(None),
        !config.mainland_acceleration ==> resolution_matches(
            r,
            resolved_spec(*config, *env, opt_settings_view(system)),
        ),
{
    if mainland_acceleration(config) {
        Ok(None)
    } else {
        resolve_proxy_from_config(config, env, system)
    }
}

/// The proxy variables for child processes: none in mainland mode.
pub fn proxy_env_vars(config: &AppConfig, env: &EnvProxyVars, system: Option<ProxySettings>) -> (r:
    Result<Vec<(String, String)>, AppError>)
    ensures
        config.mainland_acceleration ==> (r matches Ok(v) && v@.len() == 0),
        !config.mainland_acceleration ==> env_vars_match(
            r,
            env_vars_spec(resolved_spec(*config, *env, opt_settings_view(system))),
        ),
{
    if mainland_acceleration(config) {
        Ok(Vec::new())
    } else {
        build_proxy_env_vars(config, env, system)
    }
}

pub fn default_index(config: &AppConfig) -> (r: String)
    ensures
        r@ == if config.mainland_acceleration {
            default_index_spec(MAINLAND_PYPI_MIRROR@)
        } else {
            default_index_spec(config.pypi_mirror@)
        },
{
    if mainland_acceleration(config) {
        normalize_default_index(MAINLAND_PYPI_MIRROR)
    } else {
        normalize_default_index(config.pypi_mirror.as_str())
    }
}

pub open spec fn nodejs_mirror_spec(config: AppConfig) -> Seq<char> {
    if config.mainland_acceleration {
        trim_end_char(MAINLAND_NODEJS_MIRROR@, '/')
    } else if trim(config.nodejs_mirror@).len() == 0 {
        "https://nodejs.org/dist"@
    } else {
        trim_end_char(config.nodejs_mirror@, '/')
    }
}

pub fn nodejs_mirror_root(config: &AppConfig) -> (r: String)
    ensures
        r@ == nodejs_mirror_spec(*config),
{
    if mainland_acceleration(config) {
        string_from_chars(trim_end_char_vec(&chars_of(MAINLAND_NODEJS_MIRROR), '/').as_slice())
    } else if trim_vec(&chars_of(config.nodejs_mirror.as_str())).len() == 0 {
        str_to_string("https://nodejs.org/dist")
    } else {
        string_from_chars(trim_end_char_vec(&chars_of(config.nodejs_mirror.as_str()), '/').as_slice())
    }
}

pub fn npm_registry(config: &AppConfig) -> (r: Option<String>)
    ensures
        config.mainland_acceleration ==> (r matches Some(s) && s@ == MAINLAND_NPM_REGISTRY@),
        !config.mainland_acceleration ==> match r {
            Some(s) => s@ == trim(config.npm_registry@) && s@.len() > 0,
            None => trim(config.npm_registry@).len() == 0,
        },
{
    if mainland_acceleration(config) {
        Some(str_to_string(MAINLAND_NPM_REGISTRY))
    } else {
        let t = trim_vec(&chars_of(config.npm_registry.as_str()));
        if t.len() == 0 {
            None
        } else {
            Some(string_from_chars(t.as_slice()))
        }
    }
}

pub open spec fn dashboard_urls_spec(config: AppConfig, tag: Seq<char>) -> Seq<Seq<char>> {
    let t = trim(tag);
    let registry = "https://astrbot-registry.soulter.top/download/astrbot-dashboard/"@ + t
        + "/dist.zip"@;
    let github = "https://github.com/AstrBotDevs/AstrBot/releases/download/"@ + t + "/AstrBot-"@
        + t + "-dashboard.zip"@;
    let proxy = if config.mainland_acceleration {
        MAINLAND_ASTRBOT_DOWNLOAD_PROXY@
    } else {
        config.github_proxy@
    };
    seq![registry, wrap_spec(proxy, github)]
}

/// Where the dashboard archive of a release is fetched from, in order.
pub fn astrbot_dashboard_archive_urls(config: &AppConfig, tag: &str) -> (r: Vec<String>)
    ensures
        crate::archive_path::strs_view(r@) == dashboard_urls_spec(*config, tag@),
{
    let t = string_from_chars(trim_vec(&chars_of(tag)).as_slice());
    let mut registry = str_to_string("https://astrbot-registry.soulter.top/download/astrbot-dashboard/");
    registry.append(t.as_str());
    registry.append("/dist.zip");
    let mut github = str_to_string("https://github.com/AstrBotDevs/AstrBot/releases/download/");
    github.append(t.as_str());
    github.append("/AstrBot-");
    github.append(t.as_str());
    github.append("-dashboard.zip");
    let fallback = if mainland_acceleration(config) {
        wrap_with_proxy(MAINLAND_ASTRBOT_DOWNLOAD_PROXY, github.as_str())
    } else {
        wrap_with_proxy(config.github_proxy.as_str(), github.as_str())
    };
    let mut v: Vec<String> = Vec::new();
    v.push(registry);
    v.push(fallback);
    assert(crate::archive_path::strs_view(v@) =~= dashboard_urls_spec(*config, tag@));
    v
}

/// The GitHub source archive of an AstrBot release tag.
pub open spec fn source_archive_url(tag: Seq<char>) -> Seq<char> {
    "https://github.com/AstrBotDevs/AstrBot/archive/refs/tags/"@ + tag + ".zip"@
}

/// Where the source archive of a release is fetched from, in order: with
/// mainland acceleration through the AstrBot download proxy and then
/// directly; otherwise once, through the configured GitHub proxy.
pub fn astrbot_source_archive_urls(config: &AppConfig, tag: &str) -> (r: Vec<String>)
    ensures
        crate::archive_path::strs_view(r@) == (if config.mainland_acceleration {
            seq![wrap_spec(MAINLAND_ASTRBOT_DOWNLOAD_PROXY@, source_archive_url(tag@)), source_archive_url(tag@)]
        } else {
            seq![wrap_spec(config.github_proxy@, source_archive_url(tag@))]
        }),
{
    let mut raw = str_to_string("https://github.com/AstrBotDevs/AstrBot/archive/refs/tags/");
    raw.append(tag);
    raw.append(".zip");
    let mut v: Vec<String> = Vec::new();
    if mainland_acceleration(config) {
        v.push(wrap_with_proxy(MAINLAND_ASTRBOT_DOWNLOAD_PROXY, raw.as_str()));
        v.push(raw);
    } else {
        v.push(wrap_with_proxy(config.github_proxy.as_str(), raw.as_str()));
    }
    assert(crate::archive_path::strs_view(v@) =~= (if config.mainland_acceleration {
        seq![wrap_spec(MAINLAND_ASTRBOT_DOWNLOAD_PROXY@, source_archive_url(tag@)), source_archive_url(tag@)]
    } else {
        seq![wrap_spec(config.github_proxy@, source_archive_url(tag@))]
    }));
    v
}

/// Where a uv release archive is fetched from.
pub fn build_uv_download_url(config: &AppConfig, archive_name: &str) -> (r: String)
    ensures
        r@ == if config.mainland_acceleration {
            MAINLAND_UV_RELEASE_BASE@ + archive_name@
        } else {
            wrap_spec(
                config.github_proxy@,
                "https://github.com/astral-sh/uv/releases/latest/download/"@ + archive_name@,
            )
        },
{
    if mainland_acceleration(config) {
        let mut r = str_to_string(MAINLAND_UV_RELEASE_BASE);
        r.append(archive_name);
        r
    } else {
        let mut raw = str_to_string("https://github.com/astral-sh/uv/releases/latest/download/");
        raw.append(archive_name);
        wrap_with_proxy(config.github_proxy.as_str(), raw.as_str())
    }
}

pub fn build_mainland_python_asset_download_url(asset_name: &str) -> (r: String)
    ensures
        r@ == MAINLAND_PYTHON_BUILD_STANDALONE_BASE@ + asset_name@,
{
    let mut r = str_to_string(MAINLAND_PYTHON_BUILD_STANDALONE_BASE);
    r.append(asset_name);
    r
}

pub fn build_github_python_asset_download_url(config: &AppConfig, github_url: &str) -> (r: String)
    ensures
        r@ == wrap_spec(config.github_proxy@, github_url@),
{
    wrap_with_proxy(config.github_proxy.as_str(), github_url)
}

} // verus!
