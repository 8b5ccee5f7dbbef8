//! Application settings and where they are stored.
//!
//! Settings live as JSON in `<platform config dir>/com.flowdesk.app/config.json`;
//! the barrier text configuration that the server reads is written next to
//! it as `server.conf`.
use vstd::prelude::*;
use crate::config::{ServerConfig, fallback_screen_name, local_host_name, SERVER_DEFAULT_INDEX};

verus! {

pub const BUNDLE_ID: &'static str = "com.flowdesk.app";

pub const CONFIG_FILENAME: &'static str = "config.json";

pub const SERVER_CONFIG_FILENAME: &'static str = "server.conf";

pub const DEFAULT_PORT: u16 = 24800;

#[derive(Debug, Clone)]
pub struct AppConfig {
    pub screen_name: String,
    pub port: u16,
    pub interface: String,
    pub log_level: String,
    pub log_to_file: bool,
    pub log_filename: String,
    pub language: String,
    pub crypto_enabled: bool,
    pub require_client_certificate: bool,
    pub auto_hide: bool,
    pub auto_start: bool,
    pub minimize_to_tray: bool,
    pub enable_drag_and_drop: bool,
    pub server_config: ServerConfig,
}

impl AppConfig {
    /// Every setting but the screen name has its default value, and the
    /// server configuration is the default layout.
    pub open spec fn has_default_settings(&self) -> bool {
        &&& self.port == DEFAULT_PORT
        &&& self.interface@.len() == 0
        &&& self.log_level@ == "INFO"@
        &&& !self.log_to_file
        &&& self.log_filename@.len() == 0
        &&& self.language@ == "en"@
        &&& self.crypto_enabled
        &&& !self.require_client_certificate
        &&& !self.auto_hide
        &&& !self.auto_start
        &&& !self.minimize_to_tray
        &&& self.enable_drag_and_drop
        &&& self.server_config.is_default_layout()
        &&& self.server_config.wf()
    }

    /// The default settings for a machine called `name`: it is the screen
    /// name and the name of the server's cell in the default layout.
    pub fn with_local_name(name: &str) -> (r: Self)
        ensures
            r.has_default_settings(),
            r.screen_name@ == name@,
            r.server_config.screens@[SERVER_DEFAULT_INDEX as int].name@ == name@,
    {
        AppConfig {
            screen_name: String::from_str(name),
            port: DEFAULT_PORT,
            interface: String::new(),
            log_level: String::from_str("INFO"),
            log_to_file: false,
            log_filename: String::new(),
            language: String::from_str("en"),
            crypto_enabled: true,
            require_client_certificate: false,
            auto_hide: false,
            auto_start: false,
            minimize_to_tray: false,
            enable_drag_and_drop: true,
            server_config: ServerConfig::with_server_screen(name),
        }
    }
}

impl AppConfig {
    /// The default settings for a machine with host name `host` (if it has
    /// one): that name, or `flowdesk` without one, is the screen name and
    /// the name of the server's cell.
    pub fn for_host(host: Option<String>) -> (r: Self)
        ensures
            r.has_default_settings(),
            r.screen_name@ == (match host {
                Some(h) => h@,
                None => "flowdesk"@,
            }),
            r.server_config.screens@[SERVER_DEFAULT_INDEX as int].name@ == r.screen_name@,
    {
        let local = fallback_screen_name(host);
        AppConfig::with_local_name(local.as_str())
    }
}

impl Default for AppConfig {
    /// The default settings, named after the machine's host name.
    fn default() -> (r: Self)
        ensures
            r.has_default_settings(),
            r.server_config.screens@[SERVER_DEFAULT_INDEX as int].name@ == r.screen_name@,
    {
        AppConfig::for_host(local_host_name())
    }
}

/// `base` with `name` appended as a further path component: a `/` is put
/// between them unless `base` is empty or already ends with one.
pub open spec fn path_join(base: Seq<char>, name: Seq<char>) -> Seq<char> {
    if base.len() == 0 || base.last() == '/' {
        base + name
    } else {
        base + "/"@ + name
    }
}

/// Appends a relative path component.
pub fn join_path(base: &str, name: &str) -> (r: String)
    ensures
        r@ == path_join(base@, name@),
{
    let n = base.unicode_len();
    let mut out = String::from_str(base);
    if n > 0 && base.get_char(n - 1) != '/' {
        out.append("/");
    }
    out.append(name);
    out
}

/// The settings directory (`com.flowdesk.app`) under the platform
/// configuration directory, or under the current directory when the
/// platform has none. It holds the JSON settings file (`settings_file_under`)
/// and the server's text configuration (`server_config_path`).
pub fn config_dir_under(platform_dir: Option<&str>) -> (r: String)
    ensures
        r@ == path_join(
            match platform_dir {
                Some(d) => d@,
                None => "."@,
            },
            BUNDLE_ID@,
        ),
{
    match platform_dir {
        Some(d) => join_path(d, BUNDLE_ID),
        None => join_path(".", BUNDLE_ID),
    }
}

/// Path to the JSON application settings file: `config.json` in the
/// settings directory under the platform configuration directory (or under
/// the current directory when the platform has none).
pub fn settings_file_under(platform_dir: Option<&str>) -> (r: String)
    ensures
        r@ == path_join(
            path_join(
                match platform_dir {
                    Some(d) => d@,
                    None => "."@,
                },
                BUNDLE_ID@,
            ),
            CONFIG_FILENAME@,
        ),
{
    let dir = config_dir_under(platform_dir);
    config_file(dir.as_str())
}

/// Path of the JSON settings file in the settings directory.
pub fn config_file(config_dir: &str) -> (r: String)
    ensures
        r@ == path_join(config_dir@, CONFIG_FILENAME@),
{
    join_path(config_dir, CONFIG_FILENAME)
}

/// Path the server binary will read its `-c` config from.
pub fn server_config_path(config_dir: &str) -> (r: String)
    ensures
        r@ == path_join(config_dir@, SERVER_CONFIG_FILENAME@),
{
    join_path(config_dir, SERVER_CONFIG_FILENAME)
}

} // verus!
