//! Configuration values, their defaults, and the rules that complete them
//! from the environment.
use vstd::prelude::*;
use crate::error::AppError;
use crate::text::{concat2, concat3, owned};

verus! {

/// The server configuration.
#[derive(Debug, Clone)]
pub struct AppConfig {
    pub accounts: Vec<AccountConfig>,
    pub default_account: Option<String>,
    pub server: ServerConfig,
    pub capabilities: Capabilities,
    pub notifications: NotificationsConfig,
    pub auth: AuthConfig,
    pub admin_api: AdminApiConfig,
}

/// One mail account.
#[derive(Debug, Clone)]
pub struct AccountConfig {
    pub name: String,
    pub url: String,
    pub username: String,
    /// Read password from this environment variable
    pub password_env: String,
}

/// Default name of the variable holding an account password.
pub fn default_password_env() -> (s: String)
    ensures
        s@ == "STALWART_PASSWORD"@,
{
    owned("STALWART_PASSWORD")
}

impl AccountConfig {
    /// The account password, given the value of the environment variable
    /// named by `password_env` (`None` when it is unset or not Unicode).
    pub fn password(&self, env_value: Option<String>) -> (r: Result<String, AppError>)
        ensures
            match env_value {
                Some(v) => r matches Ok(p) && p@ == v@,
                None => r matches Err(AppError::Config(m))
                    && m@ == "Environment variable '"@ + self.password_env@ + "' not set"@,
            },
    {
        match env_value {
            Some(v) => Ok(v),
            None => Err(AppError::Config(concat3("Environment variable '", self.password_env.as_str(), "' not set"))),
        }
    }
}

/// HTTP transport settings.
#[derive(Debug, Clone)]
pub struct ServerConfig {
    pub bind: String,
}

/// Default HTTP bind address.
pub fn default_bind() -> (s: String)
    ensures
        s@ == "127.0.0.1:3000"@,
{
    owned("127.0.0.1:3000")
}

impl Default for ServerConfig {
    fn default() -> (c: ServerConfig)
        ensures
            c.bind@ == "127.0.0.1:3000"@,
    {
        ServerConfig { bind: default_bind() }
    }
}

/// Optional features, all off unless enabled.
#[derive(Debug, Clone, Copy, PartialEq, Eq, Structural)]
pub struct Capabilities {
    /// Allow sending emails via mail_send tool. Default: false (must explicitly enable).
    pub send: bool,
    /// Allow spam training via admin API. Default: false (must explicitly enable).
    pub spam_training: bool,
}

impl Default for Capabilities {
    fn default() -> (c: Capabilities)
        ensures
            !c.send,
            !c.spam_training,
    {
        Capabilities { send: false, spam_training: false }
    }
}

/// Access to the server's administration API.
#[derive(Debug, Clone)]
pub struct AdminApiConfig {
    /// Admin username. Default: "admin".
    pub username: String,
    /// Admin password directly in config. Takes precedence over password_env.
    pub password: Option<String>,
    /// Environment variable name for admin password. Default: "STALWART_ADMIN_PASSWORD".
    pub password_env: String,
}

/// Default administrator name.
pub fn default_admin_username() -> (s: String)
    ensures
        s@ == "admin"@,
{
    owned("admin")
}

/// Default name of the variable holding the administrator password.
pub fn default_admin_password_env() -> (s: String)
    ensures
        s@ == "STALWART_ADMIN_PASSWORD"@,
{
    owned("STALWART_ADMIN_PASSWORD")
}

impl Default for AdminApiConfig {
    fn default() -> (c: AdminApiConfig)
        ensures
            c.username@ == "admin"@,
            c.password is None,
            c.password_env@ == "STALWART_ADMIN_PASSWORD"@,
    {
        AdminApiConfig {
            username: default_admin_username(),
            password: None,
            password_env: default_admin_password_env(),
        }
    }
}

impl AdminApiConfig {
    /// The administrator password: the one in the configuration if present,
    /// else the value of the variable named by `password_env`, given as
    /// `env_value` (`None` when it is unset or not Unicode).
    pub fn password(&self, env_value: Option<String>) -> (r: Result<String, AppError>)
        ensures
            match self.password {
                Some(pw) => r matches Ok(p) && p@ == pw@,
                None => match env_value {
                    Some(v) => r matches Ok(p) && p@ == v@,
                    None => r matches Err(AppError::Config(m))
                        && m@ == "Set 'admin_api.password' in config or environment variable '"@
                            + self.password_env@ + "'"@,
                },
            },
    {
        if let Some(pw) = &self.password {
            return Ok(pw.clone());
        }
        match env_value {
            Some(v) => Ok(v),
            None => Err(AppError::Config(concat3(
                "Set 'admin_api.password' in config or environment variable '",
                self.password_env.as_str(),
                "'",
            ))),
        }
    }
}

/// Real-time notification settings.
#[derive(Debug, Clone, Copy, PartialEq, Eq, Structural)]
pub struct NotificationsConfig {
    /// Enable JMAP EventSource listener for real-time notifications. Default: true.
    pub enabled: bool,
    /// Seconds between SSE keepalive pings. Default: 30.
    pub ping_interval: u32,
}

/// Default for switches that are on unless disabled.
pub fn default_true() -> (b: bool)
    ensures
        b,
{
    true
}

/// Default keepalive interval of the event stream, in seconds.
pub fn default_ping_interval() -> (n: u32)
    ensures
        n == 30,
{
    30
}

impl Default for NotificationsConfig {
    fn default() -> (c: NotificationsConfig)
        ensures
            c.enabled,
            c.ping_interval == 30,
    {
        NotificationsConfig { enabled: default_true(), ping_interval: default_ping_interval() }
    }
}

/// Token settings for the HTTP transport.
#[derive(Debug, Clone, PartialEq, Eq)]
pub struct AuthConfig {
    /// Secret for signing/validating tokens. Auto-generated on first `token create` if not set.
    pub secret: Option<String>,
}

impl Default for AuthConfig {
    fn default() -> (c: AuthConfig)
        ensures
            c.secret is None,
    {
        AuthConfig { secret: None }
    }
}

/// The operating systems whose configuration directory is known.
#[derive(Debug, Clone, Copy, PartialEq, Eq)]
pub enum Platform {
    Linux,
    MacOs,
    Windows,
    /// Any other system: no configuration directory.
    Other,
}

/// `base` joined with the relative component `part`, as `PathBuf::join`
/// does it on Unix: a `/` goes between them unless `base` is empty or
/// already ends with one.
pub open spec fn path_join(base: Seq<char>, part: Seq<char>) -> Seq<char> {
    if base.len() == 0 || base.last() == '/' {
        base + part
    } else {
        base + "/"@ + part
    }
}

/// Joins the relative component `part` to `base`, by the Unix rule.
pub fn join_path(base: &str, part: &str) -> (r: String)
    ensures
        r@ == path_join(base@, part@),
{
    let chars = crate::text::chars_of(base);
    if chars.len() == 0 || chars[chars.len() - 1] == '/' {
        concat2(base, part)
    } else {
        concat3(base, "/", part)
    }
}

/// The per-user configuration directory on `platform`, from the values of
/// `XDG_CONFIG_HOME`, `HOME` and `APPDATA` (each `None` when unset): on
/// Linux the first if set, else `$HOME/.config`; on macOS `$HOME/.config`;
/// on Windows `APPDATA`; on any other system none.
pub fn config_dir(
    platform: Platform,
    xdg_config_home: Option<String>,
    home: Option<String>,
    appdata: Option<String>,
) -> (r: Option<String>)
    ensures
        match platform {
            Platform::Linux => match xdg_config_home {
                Some(x) => r matches Some(d) && d@ == x@,
                None => match home {
                    Some(h) => r matches Some(d) && d@ == path_join(h@, ".config"@),
                    None => r is None,
                },
            },
            Platform::MacOs => match home {
                Some(h) => r matches Some(d) && d@ == path_join(h@, ".config"@),
                None => r is None,
            },
            Platform::Windows => match appdata {
                Some(a) => r matches Some(d) && d@ == a@,
                None => r is None,
            },
            Platform::Other => r is None,
        },
{
    match platform {
        Platform::Linux => match xdg_config_home {
            Some(x) => Some(x),
            None => match home {
                Some(h) => Some(join_path(h.as_str(), ".config")),
                None => None,
            },
        },
        Platform::MacOs => match home {
            Some(h) => Some(join_path(h.as_str(), ".config")),
            None => None,
        },
        Platform::Windows => appdata,
        Platform::Other => None,
    }
}

/// The default configuration file on Unix systems: `stalwart-mcp/config.toml`
/// inside the configuration directory, or inside the current directory when
/// there is none.
pub fn dirs_config_path(config_dir: Option<String>) -> (p: String)
    ensures
        p@ == path_join(
            path_join(
                match config_dir {
                    Some(d) => d@,
                    None => "."@,
                },
                "stalwart-mcp"@,
            ),
            "config.toml"@,
        ),
{
    let base = match config_dir {
        Some(d) => d,
        None => owned("."),
    };
    let dir = join_path(base.as_str(), "stalwart-mcp");
    join_path(dir.as_str(), "config.toml")
}

} // verus!
