use qq_warning::config::{default_log_level, default_media_dir, default_true, ApiConfig, BotConfig, Config, ConfigError, FeaturesConfig, LoggingConfig, NotificationConfig, RateLimitConfig};
use qq_warning::types::MessageType;

fn config(app_id: &str, secret: &str) -> Config {
    Config {
        bot: BotConfig { app_id: app_id.into(), client_secret: secret.into() },
        api: ApiConfig { base_url: "https://api.sgroup.qq.com".into(), auth_url: "https://bots.qq.com/app/getAppAccessToken".into() },
        rate_limit: RateLimitConfig { min_interval_secs: 1 },
        notifications: NotificationConfig::default(),
        logging: LoggingConfig::default(),
        features: FeaturesConfig::default(),
    }
}

#[test]
fn defaults() {
    assert!(default_true());
    assert_eq!(default_log_level(), "info");
    assert_eq!(default_media_dir(), "./media");
    let n = NotificationConfig::default();
    assert!(n.enabled && n.sound && n.show_preview);
    let l = LoggingConfig::default();
    assert_eq!(l.level, "info");
    assert!(l.file.is_none());
    let f = FeaturesConfig::default();
    assert!(f.auto_download_media);
    assert_eq!(f.media_dir, "./media");
}

#[test]
fn log_file_only_when_named() {
    assert!(!LoggingConfig { level: "info".into(), file: None }.has_log_file());
    assert!(!LoggingConfig { level: "info".into(), file: Some(String::new()) }.has_log_file());
    assert!(LoggingConfig { level: "info".into(), file: Some("qq.log".into()) }.has_log_file());
}

#[test]
fn credentials_checked() {
    assert_eq!(config("102000", "secret").validate(), Ok(()));
    assert_eq!(config("", "secret").validate(), Err(ConfigError::AppIdNotSet));
    assert_eq!(config("your_app_id_here", "secret").validate(), Err(ConfigError::AppIdNotSet));
    assert_eq!(config("102000", "").validate(), Err(ConfigError::ClientSecretNotSet));
    assert_eq!(config("102000", "your_client_secret_here").validate(), Err(ConfigError::ClientSecretNotSet));
    assert_eq!(config("", "").validate(), Err(ConfigError::AppIdNotSet));
    assert_eq!(ConfigError::AppIdNotSet.message(), "请在配置文件中设置正确的 app_id");
    assert_eq!(ConfigError::ClientSecretNotSet.message(), "请在配置文件中设置正确的 client_secret");
}

#[test]
fn message_type_codes() {
    let all = [MessageType::Text, MessageType::Markdown, MessageType::Ark, MessageType::Embed, MessageType::Media];
    let codes: Vec<u8> = all.iter().map(|t| t.code()).collect();
    assert_eq!(codes, vec![0, 2, 3, 4, 7]);
    for t in all {
        assert_eq!(MessageType::from_code(t.code()), Some(t));
    }
    assert_eq!(MessageType::from_code(1), None);
    assert_eq!(MessageType::from_code(6), None);
}
