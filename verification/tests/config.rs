use stalwart_mcp::config::{
    config_dir, Platform, default_admin_password_env, default_admin_username, default_bind,
    default_password_env, default_ping_interval, default_true, dirs_config_path, join_path,
    AccountConfig, AdminApiConfig, AuthConfig, Capabilities, NotificationsConfig, ServerConfig,
};
use stalwart_mcp::error::AppError;

#[test]
fn defaults_match_the_documentation() {
    assert_eq!(default_password_env(), "STALWART_PASSWORD");
    assert_eq!(default_bind(), "127.0.0.1:3000");
    assert_eq!(default_admin_username(), "admin");
    assert_eq!(default_admin_password_env(), "STALWART_ADMIN_PASSWORD");
    assert!(default_true());
    assert_eq!(default_ping_interval(), 30);
    assert_eq!(ServerConfig::default().bind, "127.0.0.1:3000");
    let c = Capabilities::default();
    assert!(!c.send && !c.spam_training);
    let n = NotificationsConfig::default();
    assert!(n.enabled);
    assert_eq!(n.ping_interval, 30);
    assert!(AuthConfig::default().secret.is_none());
    let a = AdminApiConfig::default();
    assert_eq!(a.username, "admin");
    assert!(a.password.is_none());
    assert_eq!(a.password_env, "STALWART_ADMIN_PASSWORD");
}

#[test]
fn account_password_comes_from_the_environment() {
    let acc = AccountConfig {
        name: "personal".to_string(),
        url: "https://mail.example.com".to_string(),
        username: "user@example.com".to_string(),
        password_env: "MY_PW".to_string(),
    };
    assert_eq!(acc.password(Some("hunter2".to_string())), Ok("hunter2".to_string()));
    assert_eq!(
        acc.password(None),
        Err(AppError::Config("Environment variable 'MY_PW' not set".to_string()))
    );
}

#[test]
fn admin_password_in_config_takes_precedence() {
    let mut a = AdminApiConfig::default();
    assert_eq!(
        a.password(None),
        Err(AppError::Config(
            "Set 'admin_api.password' in config or environment variable 'STALWART_ADMIN_PASSWORD'".to_string()
        ))
    );
    assert_eq!(a.password(Some("env".to_string())), Ok("env".to_string()));
    a.password = Some("cfg".to_string());
    assert_eq!(a.password(Some("env".to_string())), Ok("cfg".to_string()));
}

#[test]
fn config_directory_follows_xdg_then_home() {
    let l = Platform::Linux;
    assert_eq!(config_dir(l, Some("/x".to_string()), Some("/home/u".to_string()), None), Some("/x".to_string()));
    assert_eq!(config_dir(l, None, Some("/home/u".to_string()), None), Some("/home/u/.config".to_string()));
    assert_eq!(config_dir(l, None, Some("/home/u/".to_string()), None), Some("/home/u/.config".to_string()));
    assert_eq!(config_dir(l, None, None, Some("C:\\AppData".to_string())), None);
}

#[test]
fn config_directory_per_platform() {
    let xdg = Some("/x".to_string());
    let home = Some("/Users/u".to_string());
    let appdata = Some("C:\\Users\\u\\AppData\\Roaming".to_string());
    assert_eq!(
        config_dir(Platform::MacOs, xdg.clone(), home.clone(), appdata.clone()),
        Some("/Users/u/.config".to_string())
    );
    assert_eq!(config_dir(Platform::MacOs, xdg.clone(), None, appdata.clone()), None);
    assert_eq!(config_dir(Platform::Windows, xdg.clone(), home.clone(), appdata.clone()), appdata);
    assert_eq!(config_dir(Platform::Windows, xdg.clone(), home.clone(), None), None);
    assert_eq!(config_dir(Platform::Other, xdg, home, Some("a".to_string())), None);
}

#[test]
fn config_file_path() {
    assert_eq!(
        dirs_config_path(Some("/home/u/.config".to_string())),
        "/home/u/.config/stalwart-mcp/config.toml"
    );
    assert_eq!(dirs_config_path(None), "./stalwart-mcp/config.toml");
    assert_eq!(join_path("", "a"), "a");
    assert_eq!(join_path("/", "a"), "/a");
}
