//! Application settings and the manifest of instances and installed versions.

use vstd::prelude::*;

verus! {

/// Application settings as the logic reads them.
#[derive(Debug)]
pub struct AppConfig {
    pub mainland_acceleration: bool,
    pub github_proxy: String,
    pub proxy_url: String,
    pub proxy_port: String,
    pub proxy_username: String,
    pub proxy_password: String,
    pub pypi_mirror: String,
    pub nodejs_mirror: String,
    pub npm_registry: String,
    pub use_uv_for_deps: bool,
    pub close_to_tray: bool,
    pub autostart_minimize_to_tray: bool,
    pub check_instance_update: bool,
    pub persist_instance_state: bool,
    pub ignore_external_path: bool,
    pub lock_check_extension_whitelist: bool,
    /// Serialized name of the theme preference.
    pub theme_preference: String,
}

} // verus!
