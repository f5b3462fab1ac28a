//! The bot's configuration: credentials, endpoints, rate limit, notifications,
//! logging and media handling, with the defaults that an absent section or key takes.

use vstd::prelude::*;

verus! {

broadcast use vstd::string::group_string_axioms;

/// The whole configuration file.
#[derive(Debug, Clone)]
pub struct Config {
    pub bot: BotConfig,
    pub api: ApiConfig,
    pub rate_limit: RateLimitConfig,
    pub notifications: NotificationConfig,
    pub logging: LoggingConfig,
    pub features: FeaturesConfig,
}

/// The bot's credentials.
#[derive(Debug, Clone)]
pub struct BotConfig {
    pub app_id: String,
    pub client_secret: String,
}

/// Where the open platform is reached.
#[derive(Debug, Clone)]
pub struct ApiConfig {
    pub base_url: String,
    pub auth_url: String,
}

/// The least time between two sent messages.
#[derive(Debug, Clone)]
pub struct RateLimitConfig {
    pub min_interval_secs: u64,
}

/// Desktop notifications on incoming messages.
#[derive(Debug, Clone)]
pub struct NotificationConfig {
    pub enabled: bool,
    pub sound: bool,
    pub show_preview: bool,
}

impl Default for NotificationConfig {
    fn default() -> (c: NotificationConfig)
        ensures
            c.enabled,
            c.sound,
            c.show_preview,
    {
        NotificationConfig { enabled: default_true(), sound: default_true(), show_preview: default_true() }
    }
}

/// Log level and optional log file.
#[derive(Debug, Clone)]
pub struct LoggingConfig {
    pub level: String,
    pub file: Option<String>,
}

impl Default for LoggingConfig {
    fn default() -> (c: LoggingConfig)
        ensures
            c.level@ == seq!['i', 'n', 'f', 'o'],
            c.file is None,
    {
        LoggingConfig { level: default_log_level(), file: None }
    }
}

impl LoggingConfig {
    /// Logs also go to a file when a non-empty file name is given.
    pub fn has_log_file(&self) -> (b: bool)
        ensures
            b <==> (self.file matches Some(f) && f@.len() > 0),
    {
        match &self.file {
            Some(f) => !f.as_str().is_empty(),
            None => false,
        }
    }
}

/// Handling of media attached to incoming messages.
#[derive(Debug, Clone)]
pub struct FeaturesConfig {
    pub auto_download_media: bool,
    pub media_dir: String,
}

impl Default for FeaturesConfig {
    fn default() -> (c: FeaturesConfig)
        ensures
            c.auto_download_media,
            c.media_dir@ == seq!['.', '/', 'm', 'e', 'd', 'i', 'a'],
    {
        FeaturesConfig { auto_download_media: default_true(), media_dir: default_media_dir() }
    }
}

/// The value that an absent boolean switch takes.
pub fn default_true() -> (b: bool)
    ensures
        b,
{
    true
}

/// The log level when none is configured: `info`.
pub fn default_log_level() -> (s: String)
    ensures
        s@ == seq!['i', 'n', 'f', 'o'],
{
    let s = "info".to_string();
    proof {
        reveal_strlit("info");
    }
    s
}

/// The media directory when none is configured: `./media`.
pub fn default_media_dir() -> (s: String)
    ensures
        s@ == seq!['.', '/', 'm', 'e', 'd', 'i', 'a'],
{
    let s = "./media".to_string();
    proof {
        reveal_strlit("./media");
    }
    s
}

/// The app id that the configuration template ships with.
pub open spec fn app_id_placeholder() -> Seq<char> {
    "your_app_id_here"@
}

/// The client secret that the configuration template ships with.
pub open spec fn client_secret_placeholder() -> Seq<char> {
    "your_client_secret_here"@
}

/// Why a configuration was refused.
#[derive(Debug, Clone, Copy, PartialEq, Eq, Structural)]
pub enum ConfigError {
    /// The app id is empty or still the template's placeholder.
    AppIdNotSet,
    /// The client secret is empty or still the template's placeholder.
    ClientSecretNotSet,
}

impl ConfigError {
    /// The message shown to the user.
    pub fn message(&self) -> (s: String)
        ensures
            s@ == (match *self {
                ConfigError::AppIdNotSet => "请在配置文件中设置正确的 app_id"@,
                ConfigError::ClientSecretNotSet => "请在配置文件中设置正确的 client_secret"@,
            }),
    {
        match self {
            ConfigError::AppIdNotSet => "请在配置文件中设置正确的 app_id".to_string(),
            ConfigError::ClientSecretNotSet => "请在配置文件中设置正确的 client_secret".to_string(),
        }
    }
}

/// A credential is set when it is neither empty nor the template's placeholder.
pub open spec fn credential_set(value: Seq<char>, placeholder: Seq<char>) -> bool {
    value.len() > 0 && value != placeholder
}

impl Config {
    /// Checks the credentials: the app id first, then the client secret.
    pub fn validate(&self) -> (r: Result<(), ConfigError>)
        ensures
            !credential_set(self.bot.app_id@, app_id_placeholder()) ==> r == Err::<(), ConfigError>(ConfigError::AppIdNotSet),
            credential_set(self.bot.app_id@, app_id_placeholder())
                && !credential_set(self.bot.client_secret@, client_secret_placeholder())
                ==> r == Err::<(), ConfigError>(ConfigError::ClientSecretNotSet),
            r is Ok <==> credential_set(self.bot.app_id@, app_id_placeholder())
                && credential_set(self.bot.client_secret@, client_secret_placeholder()),
    {
        let app_placeholder = "your_app_id_here".to_string();
        if self.bot.app_id.as_str().is_empty() || self.bot.app_id == app_placeholder {
            return Err(ConfigError::AppIdNotSet);
        }
        let secret_placeholder = "your_client_secret_here".to_string();
        if self.bot.client_secret.as_str().is_empty() || self.bot.client_secret == secret_placeholder {
            return Err(ConfigError::ClientSecretNotSet);
        }
        Ok(())
    }
}

/// A configuration is accepted exactly when the app id is neither empty nor
/// `your_app_id_here` and the client secret is neither empty nor
/// `your_client_secret_here`, the template's placeholders; the app id is
/// reported first.
pub proof fn lemma_credentials_rule(app_id: Seq<char>, secret: Seq<char>)
    ensures
        (credential_set(app_id, app_id_placeholder()) && credential_set(secret, client_secret_placeholder()))
            == (app_id.len() > 0 && app_id != "your_app_id_here"@ && secret.len() > 0 && secret != "your_client_secret_here"@),
        !credential_set(app_id, app_id_placeholder()) == (app_id.len() == 0 || app_id == "your_app_id_here"@),
{
}

} // verus!
