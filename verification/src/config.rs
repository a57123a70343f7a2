//! The application's configuration: what the environment says, with a
//! default for everything that it leaves open, checked before it is used.
//!
//! The environment is handed in as a list of names and values. Reading it
//! from the process is the caller's part.

use crate::text::{
    decimal, flag_of, lemma_chars_deep_view, lowercase_of, parse_flag, parse_unsigned,
    push_decimal, same_text, split, split_on, string_of_range, to_lowercase, trim_bounds,
    trimmed, unsigned_of,
};
use vstd::prelude::*;
use vstd::string::StringExecFns;
use vstd::utf8::encode_utf8;

verus! {

/// Why a configuration could not be had.
#[derive(Debug)]
pub enum ConfigError {
    /// A variable that must be set is not.
    MissingEnvVar { var_name: String },
    /// A variable's value has not the form that it must have.
    InvalidFormat { var_name: String, source: String },
    /// A variable's value is none of those that it may have.
    InvalidValue { var_name: String, value: String, expected: String },
    /// The configuration as a whole breaks a rule.
    ValidationError { message: String },
}

/// The mathematical value of a `ConfigError`.
pub enum ConfigFault {
    MissingEnvVar { var_name: Seq<char> },
    InvalidFormat { var_name: Seq<char>, source: Seq<char> },
    InvalidValue { var_name: Seq<char>, value: Seq<char>, expected: Seq<char> },
    ValidationError { message: Seq<char> },
}

impl DeepView for ConfigError {
    type V = ConfigFault;

    open spec fn deep_view(&self) -> ConfigFault {
        match self {
            ConfigError::MissingEnvVar { var_name } => ConfigFault::MissingEnvVar {
                var_name: var_name@,
            },
            ConfigError::InvalidFormat { var_name, source } => ConfigFault::InvalidFormat {
                var_name: var_name@,
                source: source@,
            },
            ConfigError::InvalidValue { var_name, value, expected } => ConfigFault::InvalidValue {
                var_name: var_name@,
                value: value@,
                expected: expected@,
            },
            ConfigError::ValidationError { message } => ConfigFault::ValidationError {
                message: message@,
            },
        }
    }
}

impl ConfigFault {
    /// The fault in words.
    pub open spec fn message(self) -> Seq<char> {
        match self {
            ConfigFault::MissingEnvVar { var_name } => "缺少必需的环境变量: "@ + var_name,
            ConfigFault::InvalidFormat { var_name, source } => "环境变量 "@ + var_name
                + " 格式错误: "@ + source,
            ConfigFault::InvalidValue { var_name, value, expected } => "环境变量 "@ + var_name
                + " 值无效: "@ + value + " (期望: "@ + expected + ")"@,
            ConfigFault::ValidationError { message } => "配置验证失败: "@ + message,
        }
    }
}

impl ConfigError {
    /// The error in words.
    pub fn message(&self) -> (out: String)
        ensures
            out@ == self.deep_view().message(),
    {
        match self {
            ConfigError::MissingEnvVar { var_name } => {
                let mut out = String::from_str("缺少必需的环境变量: ");
                out.append(var_name.as_str());
                out
            },
            ConfigError::InvalidFormat { var_name, source } => {
                let mut out = String::from_str("环境变量 ");
                out.append(var_name.as_str());
                out.append(" 格式错误: ");
                out.append(source.as_str());
                out
            },
            ConfigError::InvalidValue { var_name, value, expected } => {
                let mut out = String::from_str("环境变量 ");
                out.append(var_name.as_str());
                out.append(" 值无效: ");
                out.append(value.as_str());
                out.append(" (期望: ");
                out.append(expected.as_str());
                out.append(")");
                out
            },
            ConfigError::ValidationError { message } => {
                let mut out = String::from_str("配置验证失败: ");
                out.append(message.as_str());
                out
            },
        }
    }
}

/// How much is logged.
#[derive(Debug, Clone, Copy, PartialEq, Eq, Structural)]
pub enum LogLevel {
    Error,
    Warn,
    Info,
    Debug,
    Trace,
}

impl LogLevel {
    /// The level's name.
    pub open spec fn name(self) -> Seq<char> {
        match self {
            LogLevel::Error => "error"@,
            LogLevel::Warn => "warn"@,
            LogLevel::Info => "info"@,
            LogLevel::Debug => "debug"@,
            LogLevel::Trace => "trace"@,
        }
    }

    /// The level of a name in lower case.
    pub open spec fn named(lower: Seq<char>) -> Option<LogLevel> {
        if lower == "error"@ {
            Some(LogLevel::Error)
        } else if lower == "warn"@ {
            Some(LogLevel::Warn)
        } else if lower == "info"@ {
            Some(LogLevel::Info)
        } else if lower == "debug"@ {
            Some(LogLevel::Debug)
        } else if lower == "trace"@ {
            Some(LogLevel::Trace)
        } else {
            None
        }
    }

    /// What reading a level out of `given` comes to, `lower` being
    /// `given` in lower case.
    pub open spec fn read(lower: Seq<char>, given: Seq<char>) -> Result<LogLevel, ConfigFault> {
        match Self::named(lower) {
            Some(level) => Ok(level),
            None => Err(
                ConfigFault::InvalidValue {
                    var_name: "LOG_LEVEL"@,
                    value: given,
                    expected: "error, warn, info, debug, trace"@,
                },
            ),
        }
    }

    /// The level's name.
    pub fn as_str(&self) -> (name: &'static str)
        ensures
            name@ == self.name(),
    {
        match self {
            LogLevel::Error => "error",
            LogLevel::Warn => "warn",
            LogLevel::Info => "info",
            LogLevel::Debug => "debug",
            LogLevel::Trace => "trace",
        }
    }

    /// Reads a level out of `given`, whose lower case is `lower`.
    pub fn from_lowercase(lower: &str, given: &str) -> (r: Result<LogLevel, ConfigError>)
        ensures
            match r {
                Ok(level) => Self::read(lower@, given@) == Ok::<_, ConfigFault>(level),
                Err(e) => Self::read(lower@, given@) == Err::<LogLevel, _>(e.deep_view()),
            },
    {
        if same_text(lower, "error") {
            Ok(LogLevel::Error)
        } else if same_text(lower, "warn") {
            Ok(LogLevel::Warn)
        } else if same_text(lower, "info") {
            Ok(LogLevel::Info)
        } else if same_text(lower, "debug") {
            Ok(LogLevel::Debug)
        } else if same_text(lower, "trace") {
            Ok(LogLevel::Trace)
        } else {
            Err(
                ConfigError::InvalidValue {
                    var_name: String::from_str("LOG_LEVEL"),
                    value: String::from_str(given),
                    expected: String::from_str("error, warn, info, debug, trace"),
                },
            )
        }
    }

    /// Reads a level out of its name, in whatever case it is written.
    pub fn parse(s: &str) -> (r: Result<LogLevel, ConfigError>)
        ensures
            match r {
                Ok(level) => Self::read(lowercase_of(s@), s@) == Ok::<_, ConfigFault>(level),
                Err(e) => Self::read(lowercase_of(s@), s@) == Err::<LogLevel, _>(e.deep_view()),
            },
    {
        let lower = to_lowercase(s);
        Self::from_lowercase(lower.as_str(), s)
    }
}

impl std::str::FromStr for LogLevel {
    type Err = ConfigError;

    /// Reads a level out of its name, in whatever case it is written.
    fn from_str(s: &str) -> (r: Result<LogLevel, ConfigError>)
        ensures
            match r {
                Ok(level) => LogLevel::read(lowercase_of(s@), s@) == Ok::<_, ConfigFault>(level),
                Err(e) => LogLevel::read(lowercase_of(s@), s@) == Err::<LogLevel, _>(
                    e.deep_view(),
                ),
            },
    {
        LogLevel::parse(s)
    }
}

/// Where the application runs.
#[derive(Debug, Clone, Copy, PartialEq, Eq, Structural)]
pub enum Environment {
    Development,
    Testing,
    Staging,
    Production,
}

impl Environment {
    /// The environment's name.
    pub open spec fn name(self) -> Seq<char> {
        match self {
            Environment::Development => "development"@,
            Environment::Testing => "testing"@,
            Environment::Staging => "staging"@,
            Environment::Production => "production"@,
        }
    }

    /// The environment of a name in lower case. Three of them have a
    /// short name too.
    pub open spec fn named(lower: Seq<char>) -> Option<Environment> {
        if lower == "development"@ || lower == "dev"@ {
            Some(Environment::Development)
        } else if lower == "testing"@ || lower == "test"@ {
            Some(Environment::Testing)
        } else if lower == "staging"@ {
            Some(Environment::Staging)
        } else if lower == "production"@ || lower == "prod"@ {
            Some(Environment::Production)
        } else {
            None
        }
    }

    /// What reading an environment out of `given` comes to, `lower` being
    /// `given` in lower case.
    pub open spec fn read(lower: Seq<char>, given: Seq<char>) -> Result<Environment, ConfigFault> {
        match Self::named(lower) {
            Some(environment) => Ok(environment),
            None => Err(
                ConfigFault::InvalidValue {
                    var_name: "ENVIRONMENT"@,
                    value: given,
                    expected: "development, testing, staging, production"@,
                },
            ),
        }
    }

    /// The environment's name.
    pub fn as_str(&self) -> (name: &'static str)
        ensures
            name@ == self.name(),
    {
        match self {
            Environment::Development => "development",
            Environment::Testing => "testing",
            Environment::Staging => "staging",
            Environment::Production => "production",
        }
    }

    /// Reads an environment out of `given`, whose lower case is `lower`.
    pub fn from_lowercase(lower: &str, given: &str) -> (r: Result<Environment, ConfigError>)
        ensures
            match r {
                Ok(environment) => Self::read(lower@, given@) == Ok::<_, ConfigFault>(environment),
                Err(e) => Self::read(lower@, given@) == Err::<Environment, _>(e.deep_view()),
            },
    {
        if same_text(lower, "development") || same_text(lower, "dev") {
            Ok(Environment::Development)
        } else if same_text(lower, "testing") || same_text(lower, "test") {
            Ok(Environment::Testing)
        } else if same_text(lower, "staging") {
            Ok(Environment::Staging)
        } else if same_text(lower, "production") || same_text(lower, "prod") {
            Ok(Environment::Production)
        } else {
            Err(
                ConfigError::InvalidValue {
                    var_name: String::from_str("ENVIRONMENT"),
                    value: String::from_str(given),
                    expected: String::from_str("development, testing, staging, production"),
                },
            )
        }
    }

    /// Reads an environment out of its name, in whatever case it is written.
    pub fn parse(s: &str) -> (r: Result<Environment, ConfigError>)
        ensures
            match r {
                Ok(environment) => Self::read(lowercase_of(s@), s@) == Ok::<_, ConfigFault>(
                    environment,
                ),
                Err(e) => Self::read(lowercase_of(s@), s@) == Err::<Environment, _>(
                    e.deep_view(),
                ),
            },
    {
        let lower = to_lowercase(s);
        Self::from_lowercase(lower.as_str(), s)
    }
}

impl std::str::FromStr for Environment {
    type Err = ConfigError;

    /// Reads an environment out of its name, in whatever case it is
    /// written.
    fn from_str(s: &str) -> (r: Result<Environment, ConfigError>)
        ensures
            match r {
                Ok(environment) => Environment::read(lowercase_of(s@), s@) == Ok::<
                    _,
                    ConfigFault,
                >(environment),
                Err(e) => Environment::read(lowercase_of(s@), s@) == Err::<Environment, _>(
                    e.deep_view(),
                ),
            },
    {
        Environment::parse(s)
    }
}

/// The server's own settings.
#[derive(Debug, Clone)]
pub struct ServerConfig {
    /// The address to listen on.
    pub host: String,
    /// The port to listen on.
    pub port: u16,
    /// The directory of the static files.
    pub static_dir: String,
    /// Seconds after which a request is given up.
    pub request_timeout: u64,
    /// The largest body of a request, in bytes.
    pub max_body_size: usize,
}

/// The mathematical value of a `ServerConfig`.
pub struct ServerSettings {
    pub host: Seq<char>,
    pub port: u16,
    pub static_dir: Seq<char>,
    pub request_timeout: u64,
    pub max_body_size: usize,
}

impl DeepView for ServerConfig {
    type V = ServerSettings;

    open spec fn deep_view(&self) -> ServerSettings {
        ServerSettings {
            host: self.host@,
            port: self.port,
            static_dir: self.static_dir@,
            request_timeout: self.request_timeout,
            max_body_size: self.max_body_size,
        }
    }
}

/// The database's settings.
#[derive(Debug, Clone)]
pub struct DatabaseConfig {
    pub url: String,
    pub max_connections: u32,
    /// Seconds after which connecting is given up.
    pub connect_timeout: u64,
    /// Seconds after which a query is given up.
    pub query_timeout: u64,
    /// Whether statements are logged.
    pub enable_logging: bool,
}

/// The mathematical value of a `DatabaseConfig`.
pub struct DatabaseSettings {
    pub url: Seq<char>,
    pub max_connections: u32,
    pub connect_timeout: u64,
    pub query_timeout: u64,
    pub enable_logging: bool,
}

impl DeepView for DatabaseConfig {
    type V = DatabaseSettings;

    open spec fn deep_view(&self) -> DatabaseSettings {
        DatabaseSettings {
            url: self.url@,
            max_connections: self.max_connections,
            connect_timeout: self.connect_timeout,
            query_timeout: self.query_timeout,
            enable_logging: self.enable_logging,
        }
    }
}

/// The settings of the services that are called.
#[derive(Debug, Clone)]
pub struct ExternalApiConfig {
    pub github_token: Option<String>,
    pub github_base_url: String,
    /// Seconds after which a call is given up.
    pub request_timeout: u64,
    /// How often a call is tried again.
    pub max_retries: u32,
}

/// The mathematical value of an `ExternalApiConfig`.
pub struct ExternalApiSettings {
    pub github_token: Option<Seq<char>>,
    pub github_base_url: Seq<char>,
    pub request_timeout: u64,
    pub max_retries: u32,
}

impl DeepView for ExternalApiConfig {
    type V = ExternalApiSettings;

    open spec fn deep_view(&self) -> ExternalApiSettings {
        ExternalApiSettings {
            github_token: self.github_token.deep_view(),
            github_base_url: self.github_base_url@,
            request_timeout: self.request_timeout,
            max_retries: self.max_retries,
        }
    }
}

/// The settings that guard the application.
#[derive(Debug, Clone)]
pub struct SecurityConfig {
    pub jwt_secret: Option<String>,
    /// Seconds for which a token holds.
    pub jwt_expiration: u64,
    /// The origins that may call from a browser.
    pub cors_origins: Vec<String>,
    pub force_https: bool,
}

/// The mathematical value of a `SecurityConfig`.
pub struct SecuritySettings {
    pub jwt_secret: Option<Seq<char>>,
    pub jwt_expiration: u64,
    pub cors_origins: Seq<Seq<char>>,
    pub force_https: bool,
}

impl DeepView for SecurityConfig {
    type V = SecuritySettings;

    open spec fn deep_view(&self) -> SecuritySettings {
        SecuritySettings {
            jwt_secret: self.jwt_secret.deep_view(),
            jwt_expiration: self.jwt_expiration,
            cors_origins: self.cors_origins.deep_view(),
            force_https: self.force_https,
        }
    }
}

impl SecurityConfig {
    /// Whether every origin may call: the list of origins is the one
    /// entry `*`.
    pub fn allows_any_origin(&self) -> (r: bool)
        ensures
            r == (self.deep_view().cors_origins == seq!["*"@]),
    {
        let r = self.cors_origins.len() == 1 && same_text(self.cors_origins[0].as_str(), "*");
        assert(r == (self.cors_origins.deep_view() == seq!["*"@])) by {
            if r {
                assert(self.cors_origins.deep_view() =~= seq!["*"@]);
            } else if self.cors_origins.len() == 1 {
                assert(self.cors_origins.deep_view()[0] == self.cors_origins@[0]@);
            } else {
                assert(self.cors_origins.deep_view().len() != 1);
            }
        }
        r
    }
}

/// The settings of the log.
#[derive(Debug, Clone)]
pub struct LogConfig {
    pub level: LogLevel,
    /// `json` or `pretty`.
    pub format: String,
    pub file_logging: bool,
    pub log_file: Option<String>,
}

/// The mathematical value of a `LogConfig`.
pub struct LogSettings {
    pub level: LogLevel,
    pub format: Seq<char>,
    pub file_logging: bool,
    pub log_file: Option<Seq<char>>,
}

impl DeepView for LogConfig {
    type V = LogSettings;

    open spec fn deep_view(&self) -> LogSettings {
        LogSettings {
            level: self.level,
            format: self.format@,
            file_logging: self.file_logging,
            log_file: self.log_file.deep_view(),
        }
    }
}

/// The application's configuration.
#[derive(Debug, Clone)]
pub struct Config {
    pub environment: Environment,
    pub server: ServerConfig,
    pub database: Option<DatabaseConfig>,
    pub external_api: ExternalApiConfig,
    pub security: SecurityConfig,
    pub log: LogConfig,
}

/// The mathematical value of a `Config`.
pub struct Settings {
    pub environment: Environment,
    pub server: ServerSettings,
    pub database: Option<DatabaseSettings>,
    pub external_api: ExternalApiSettings,
    pub security: SecuritySettings,
    pub log: LogSettings,
}

impl DeepView for Config {
    type V = Settings;

    open spec fn deep_view(&self) -> Settings {
        Settings {
            environment: self.environment,
            server: self.server.deep_view(),
            database: self.database.deep_view(),
            external_api: self.external_api.deep_view(),
            security: self.security.deep_view(),
            log: self.log.deep_view(),
        }
    }
}

/// An environment: names and their values.
pub type EnvView = Seq<(Seq<char>, Seq<char>)>;

/// The value of a variable: that of the first entry of its name.
pub open spec fn env_value(env: EnvView, key: Seq<char>) -> Option<Seq<char>>
    decreases env.len(),
{
    if env.len() == 0 {
        None
    } else if env[0].0 == key {
        Some(env[0].1)
    } else {
        env_value(env.skip(1), key)
    }
}

/// A variable's text, or `default` where it is not set.
pub open spec fn env_text_or(env: EnvView, key: Seq<char>, default: Seq<char>) -> Seq<char> {
    match env_value(env, key) {
        Some(text) => text,
        None => default,
    }
}

/// A variable's number, or `default` where it is not set or writes no
/// number up to `max`.
pub open spec fn env_number_or(env: EnvView, key: Seq<char>, max: int, default: int) -> int {
    match env_value(env, key) {
        Some(text) => match unsigned_of(text, max) {
            Some(v) => v,
            None => default,
        },
        None => default,
    }
}

/// A variable's boolean, or `default` where it is not set or writes none.
pub open spec fn env_flag_or(env: EnvView, key: Seq<char>, default: bool) -> bool {
    match env_value(env, key) {
        Some(text) => match flag_of(text) {
            Some(flag) => flag,
            None => default,
        },
        None => default,
    }
}

/// Each piece without the whitespace round it.
pub open spec fn trimmed_all(pieces: Seq<Seq<char>>) -> Seq<Seq<char>> {
    Seq::new(pieces.len(), |i: int| trimmed(pieces[i]))
}

/// The configuration that an environment stands for.
pub open spec fn settings_of(env: EnvView) -> Settings {
    Settings {
        environment: match env_value(env, "ENVIRONMENT"@) {
            Some(text) => match Environment::named(lowercase_of(text)) {
                Some(environment) => environment,
                None => Environment::Development,
            },
            None => Environment::Development,
        },
        server: ServerSettings {
            host: env_text_or(env, "SERVER_HOST"@, "0.0.0.0"@),
            port: env_number_or(env, "SERVER_PORT"@, u16::MAX as int, 8000) as u16,
            static_dir: env_text_or(env, "STATIC_DIR"@, "static"@),
            request_timeout: env_number_or(env, "REQUEST_TIMEOUT"@, u64::MAX as int, 30) as u64,
            max_body_size: env_number_or(env, "MAX_BODY_SIZE"@, usize::MAX as int, 16_777_216)
                as usize,
        },
        database: match env_value(env, "DATABASE_URL"@) {
            Some(url) => Some(
                DatabaseSettings {
                    url,
                    max_connections: env_number_or(
                        env,
                        "DB_MAX_CONNECTIONS"@,
                        u32::MAX as int,
                        10,
                    ) as u32,
                    connect_timeout: env_number_or(
                        env,
                        "DB_CONNECT_TIMEOUT"@,
                        u64::MAX as int,
                        30,
                    ) as u64,
                    query_timeout: env_number_or(env, "DB_QUERY_TIMEOUT"@, u64::MAX as int, 30)
                        as u64,
                    enable_logging: env_flag_or(env, "DB_ENABLE_LOGGING"@, false),
                },
            ),
            None => None,
        },
        external_api: ExternalApiSettings {
            github_token: env_value(env, "GITHUB_TOKEN"@),
            github_base_url: env_text_or(env, "GITHUB_BASE_URL"@, "https://api.github.com"@),
            request_timeout: env_number_or(env, "API_REQUEST_TIMEOUT"@, u64::MAX as int, 10)
                as u64,
            max_retries: env_number_or(env, "API_MAX_RETRIES"@, u32::MAX as int, 3) as u32,
        },
        security: SecuritySettings {
            jwt_secret: env_value(env, "JWT_SECRET"@),
            jwt_expiration: env_number_or(env, "JWT_EXPIRATION"@, u64::MAX as int, 86400) as u64,
            cors_origins: match env_value(env, "CORS_ORIGINS"@) {
                Some(list) => trimmed_all(split_on(list, ',')),
                None => seq!["*"@],
            },
            force_https: env_flag_or(env, "FORCE_HTTPS"@, false),
        },
        log: LogSettings {
            level: match env_value(env, "LOG_LEVEL"@) {
                Some(text) => match LogLevel::named(lowercase_of(text)) {
                    Some(level) => level,
                    None => LogLevel::Info,
                },
                None => LogLevel::Info,
            },
            format: env_text_or(env, "LOG_FORMAT"@, "pretty"@),
            file_logging: env_flag_or(env, "LOG_FILE_ENABLED"@, false),
            log_file: env_value(env, "LOG_FILE"@),
        },
    }
}

/// The first rule that a configuration breaks, in words: the port is not
/// 0; the directory of static files has a name; a database has a URL and
/// at least one connection; a JWT secret has 32 bytes or more; at least
/// one origin is named.
pub open spec fn validation_fault(settings: Settings) -> Option<Seq<char>> {
    if settings.server.port == 0 {
        Some("服务器端口 "@ + decimal(settings.server.port as nat) + " 超出有效范围 (1-65535)"@)
    } else if settings.server.static_dir.len() == 0 {
        Some("静态文件目录不能为空"@)
    } else if settings.database is Some && settings.database->0.url.len() == 0 {
        Some("数据库URL不能为空"@)
    } else if settings.database is Some && settings.database->0.max_connections == 0 {
        Some("数据库最大连接数必须大于0"@)
    } else if settings.security.jwt_secret is Some && encode_utf8(
        settings.security.jwt_secret->0,
    ).len() < 32 {
        Some("JWT密钥长度必须至少32个字符"@)
    } else if settings.security.cors_origins.len() == 0 {
        Some("CORS源列表不能为空"@)
    } else {
        None
    }
}

/// The address that the server listens on: host, colon, port.
pub open spec fn address_of(server: ServerSettings) -> Seq<char> {
    server.host + ":"@ + decimal(server.port as nat)
}

/// The value of a variable.
pub fn get_env_var(vars: &Vec<(String, String)>, key: &str) -> (r: Option<String>)
    ensures
        r.deep_view() == env_value(vars.deep_view(), key@),
{
    let ghost env = vars.deep_view();
    let mut i: usize = 0;
    assert(env.skip(0) == env);
    while i < vars.len()
        invariant
            i <= vars.len(),
            env == vars.deep_view(),
            env_value(env, key@) == env_value(env.skip(i as int), key@),
        decreases vars.len() - i,
    {
        assert(env.skip(i as int)[0] == env[i as int]);
        assert(env.skip(i as int).skip(1) == env.skip(i + 1));
        assert(env[i as int] == (vars@[i as int].0@, vars@[i as int].1@));
        if same_text(vars[i].0.as_str(), key) {
            return Some(vars[i].1.clone());
        }
        i = i + 1;
    }
    None
}

/// The value of a variable that must be set.
pub fn require_env_var(vars: &Vec<(String, String)>, key: &str) -> (r: Result<
    String,
    ConfigError,
>)
    ensures
        match r {
            Ok(value) => env_value(vars.deep_view(), key@) == Some(value@),
            Err(e) => env_value(vars.deep_view(), key@) is None && e.deep_view()
                == (ConfigFault::MissingEnvVar { var_name: key@ }),
        },
{
    match get_env_var(vars, key) {
        Some(value) => Ok(value),
        None => Err(ConfigError::MissingEnvVar { var_name: String::from_str(key) }),
    }
}

/// The number up to `max` that a variable writes, if it is set and
/// writes one.
pub fn parse_env_var(vars: &Vec<(String, String)>, key: &str, max: u64) -> (r: Option<u64>)
    ensures
        match env_value(vars.deep_view(), key@) {
            Some(text) => match r {
                Some(v) => unsigned_of(text, max as int) == Some(v as int),
                None => unsigned_of(text, max as int) is None,
            },
            None => r is None,
        },
        r matches Some(v) ==> v <= max,
{
    match get_env_var(vars, key) {
        Some(text) => parse_unsigned(text.as_str(), max),
        None => None,
    }
}

/// A variable's number, or `default`.
fn env_number(vars: &Vec<(String, String)>, key: &str, max: u64, default: u64) -> (r: u64)
    requires
        default <= max,
    ensures
        r == env_number_or(vars.deep_view(), key@, max as int, default as int),
        r <= max,
{
    match parse_env_var(vars, key, max) {
        Some(v) => v,
        None => default,
    }
}

/// A variable's boolean, or `default`.
fn env_flag(vars: &Vec<(String, String)>, key: &str, default: bool) -> (r: bool)
    ensures
        r == env_flag_or(vars.deep_view(), key@, default),
{
    match get_env_var(vars, key) {
        Some(text) => match parse_flag(text.as_str()) {
            Some(flag) => flag,
            None => default,
        },
        None => default,
    }
}

/// A variable's text, or `default`.
fn env_text(vars: &Vec<(String, String)>, key: &str, default: &str) -> (r: String)
    ensures
        r@ == env_text_or(vars.deep_view(), key@, default@),
{
    match get_env_var(vars, key) {
        Some(text) => text,
        None => String::from_str(default),
    }
}

/// The pieces of a comma-separated list, each without the whitespace
/// round it.
pub fn split_trimmed(list: &str) -> (out: Vec<String>)
    ensures
        out.deep_view() == trimmed_all(split_on(list@, ',')),
{
    let pieces = split(list, ',');
    let mut out: Vec<String> = Vec::new();
    let mut i: usize = 0;
    while i < pieces.len()
        invariant
            i <= pieces.len(),
            out.len() == i,
            forall|k: int| 0 <= k < i ==> #[trigger] out@[k]@ == trimmed(pieces.deep_view()[k]),
        decreases pieces.len() - i,
    {
        let piece = &pieces[i];
        proof {
            lemma_chars_deep_view(*piece);
            assert(piece@.subrange(0, piece.len() as int) == piece@);
        }
        let (from, to) = trim_bounds(piece, 0, piece.len());
        out.push(string_of_range(piece, from, to));
        i = i + 1;
    }
    assert(out.deep_view() =~= trimmed_all(pieces.deep_view()));
    out
}

impl Config {
    /// Reads the configuration out of an environment and checks it.
    /// Whatever the environment leaves open, or writes in a way that
    /// cannot be read, has its default.
    pub fn from_env(vars: &Vec<(String, String)>) -> (r: Result<Config, ConfigError>)
        ensures
            match validation_fault(settings_of(vars.deep_view())) {
                None => r matches Ok(config) && config.deep_view() == settings_of(
                    vars.deep_view(),
                ),
                Some(message) => r matches Err(e) && e.deep_view()
                    == (ConfigFault::ValidationError { message }),
            },
    {
        let environment = match get_env_var(vars, "ENVIRONMENT") {
            Some(text) => match Environment::parse(text.as_str()) {
                Ok(environment) => environment,
                Err(_) => Environment::Development,
            },
            None => Environment::Development,
        };
        let server = ServerConfig {
            host: env_text(vars, "SERVER_HOST", "0.0.0.0"),
            port: env_number(vars, "SERVER_PORT", 65535, 8000) as u16,
            static_dir: env_text(vars, "STATIC_DIR", "static"),
            request_timeout: env_number(vars, "REQUEST_TIMEOUT", u64::MAX, 30),
            max_body_size: env_number(vars, "MAX_BODY_SIZE", usize::MAX as u64, 16_777_216)
                as usize,
        };
        let database = match get_env_var(vars, "DATABASE_URL") {
            Some(url) => Some(
                DatabaseConfig {
                    url,
                    max_connections: env_number(vars, "DB_MAX_CONNECTIONS", 0xffff_ffff, 10)
                        as u32,
                    connect_timeout: env_number(vars, "DB_CONNECT_TIMEOUT", u64::MAX, 30),
                    query_timeout: env_number(vars, "DB_QUERY_TIMEOUT", u64::MAX, 30),
                    enable_logging: env_flag(vars, "DB_ENABLE_LOGGING", false),
                },
            ),
            None => None,
        };
        let external_api = ExternalApiConfig {
            github_token: get_env_var(vars, "GITHUB_TOKEN"),
            github_base_url: env_text(vars, "GITHUB_BASE_URL", "https://api.github.com"),
            request_timeout: env_number(vars, "API_REQUEST_TIMEOUT", u64::MAX, 10),
            max_retries: env_number(vars, "API_MAX_RETRIES", 0xffff_ffff, 3) as u32,
        };
        let cors_origins = match get_env_var(vars, "CORS_ORIGINS") {
            Some(list) => split_trimmed(list.as_str()),
            None => {
                let mut any: Vec<String> = Vec::new();
                any.push(String::from_str("*"));
                assert(any.deep_view() =~= seq!["*"@]);
                any
            },
        };
        let security = SecurityConfig {
            jwt_secret: get_env_var(vars, "JWT_SECRET"),
            jwt_expiration: env_number(vars, "JWT_EXPIRATION", u64::MAX, 86400),
            cors_origins,
            force_https: env_flag(vars, "FORCE_HTTPS", false),
        };
        let level = match get_env_var(vars, "LOG_LEVEL") {
            Some(text) => match LogLevel::parse(text.as_str()) {
                Ok(level) => level,
                Err(_) => LogLevel::Info,
            },
            None => LogLevel::Info,
        };
        let log = LogConfig {
            level,
            format: env_text(vars, "LOG_FORMAT", "pretty"),
            file_logging: env_flag(vars, "LOG_FILE_ENABLED", false),
            log_file: get_env_var(vars, "LOG_FILE"),
        };
        let config = Config { environment, server, database, external_api, security, log };
        match config.validate() {
            Ok(()) => Ok(config),
            Err(e) => Err(e),
        }
    }

    /// Checks the configuration against its rules and names the first
    /// one that it breaks.
    pub fn validate(&self) -> (r: Result<(), ConfigError>)
        ensures
            match validation_fault(self.deep_view()) {
                None => r is Ok,
                Some(message) => r matches Err(e) && e.deep_view()
                    == (ConfigFault::ValidationError { message }),
            },
    {
        if self.server.port == 0 {
            let mut message = String::from_str("服务器端口 ");
            push_decimal(&mut message, self.server.port as u64);
            message.append(" 超出有效范围 (1-65535)");
            return Err(ConfigError::ValidationError { message });
        }
        if self.server.static_dir.as_str().is_empty() {
            return Err(
                ConfigError::ValidationError { message: String::from_str("静态文件目录不能为空") },
            );
        }
        match &self.database {
            Some(database) => {
                if database.url.as_str().is_empty() {
                    return Err(
                        ConfigError::ValidationError {
                            message: String::from_str("数据库URL不能为空"),
                        },
                    );
                }
                if database.max_connections == 0 {
                    return Err(
                        ConfigError::ValidationError {
                            message: String::from_str("数据库最大连接数必须大于0"),
                        },
                    );
                }
            },
            None => {},
        }
        match &self.security.jwt_secret {
            Some(secret) => {
                if secret.as_str().as_bytes().len() < 32 {
                    return Err(
                        ConfigError::ValidationError {
                            message: String::from_str("JWT密钥长度必须至少32个字符"),
                        },
                    );
                }
            },
            None => {},
        }
        if self.security.cors_origins.len() == 0 {
            return Err(
                ConfigError::ValidationError { message: String::from_str("CORS源列表不能为空") },
            );
        }
        Ok(())
    }

    /// Whether the application runs in development.
    pub fn is_development(&self) -> (r: bool)
        ensures
            r == (self.environment == Environment::Development),
    {
        self.environment == Environment::Development
    }

    /// Whether the application runs in production.
    pub fn is_production(&self) -> (r: bool)
        ensures
            r == (self.environment == Environment::Production),
    {
        self.environment == Environment::Production
    }

    /// Whether the application runs under test.
    pub fn is_testing(&self) -> (r: bool)
        ensures
            r == (self.environment == Environment::Testing),
    {
        self.environment == Environment::Testing
    }

    /// The address that the server listens on: host, colon, port.
    pub fn server_address(&self) -> (out: String)
        ensures
            out@ == address_of(self.server.deep_view()),
    {
        let mut out = self.server.host.clone();
        out.append(":");
        push_decimal(&mut out, self.server.port as u64);
        out
    }
}

/// The text that `{:?}` writes for a list of strings.
pub uninterp spec fn debug_text(list: Seq<Seq<char>>) -> Seq<char>;

/// Writes a list of strings with `format!` and `{:?}`. Claimed: the
/// outcome is a function of the strings.
#[verifier::external_body]
fn debug_of_list(list: &Vec<String>) -> (out: String)
    ensures
        out@ == debug_text(list.deep_view()),
{
    format!("{:?}", list)
}

/// The lines of a configuration's summary. Secrets are named as set or
/// not set, never shown.
pub open spec fn summary_of(settings: Settings) -> Seq<Seq<char>> {
    seq![
        "=== 应用配置摘要 ==="@,
        "环境: "@ + settings.environment.name(),
        "服务器: "@ + address_of(settings.server),
        "静态文件目录: "@ + settings.server.static_dir,
        match settings.database {
            Some(database) => "数据库: 已配置 (最大连接数: "@ + decimal(
                database.max_connections as nat,
            ) + ")"@,
            None => "数据库: 未配置"@,
        },
        if settings.external_api.github_token is Some {
            "GitHub Token: 已配置"@
        } else {
            "GitHub Token: 未配置 (将使用匿名访问)"@
        },
        "日志级别: "@ + settings.log.level.name(),
        "CORS源: "@ + debug_text(settings.security.cors_origins),
        "=================="@,
    ]
}

impl Config {
    /// The lines of the configuration's summary, for the log.
    pub fn summary_lines(&self) -> (lines: Vec<String>)
        ensures
            lines.deep_view() == summary_of(self.deep_view()),
    {
        let mut lines: Vec<String> = Vec::new();
        lines.push(String::from_str("=== 应用配置摘要 ==="));
        let mut environment = String::from_str("环境: ");
        environment.append(self.environment.as_str());
        lines.push(environment);
        let mut server = String::from_str("服务器: ");
        server.append(self.server_address().as_str());
        lines.push(server);
        let mut static_dir = String::from_str("静态文件目录: ");
        static_dir.append(self.server.static_dir.as_str());
        lines.push(static_dir);
        let database = match &self.database {
            Some(database) => {
                let mut line = String::from_str("数据库: 已配置 (最大连接数: ");
                push_decimal(&mut line, database.max_connections as u64);
                line.append(")");
                line
            },
            None => String::from_str("数据库: 未配置"),
        };
        lines.push(database);
        let token = if self.external_api.github_token.is_some() {
            String::from_str("GitHub Token: 已配置")
        } else {
            String::from_str("GitHub Token: 未配置 (将使用匿名访问)")
        };
        lines.push(token);
        let mut level = String::from_str("日志级别: ");
        level.append(self.log.level.as_str());
        lines.push(level);
        let mut origins = String::from_str("CORS源: ");
        origins.append(debug_of_list(&self.security.cors_origins).as_str());
        lines.push(origins);
        lines.push(String::from_str("=================="));
        assert(lines.deep_view() =~= summary_of(self.deep_view()));
        lines
    }
}

impl Config {
    /// Prints the configuration's summary into a log: its lines are put
    /// behind what the log holds.
    pub fn print_summary(&self, log: &mut Vec<String>)
        ensures
            final(log).deep_view() == old(log).deep_view() + summary_of(self.deep_view()),
    {
        let ghost before = log.deep_view();
        let mut lines = self.summary_lines();
        let ghost added = lines.deep_view();
        log.append(&mut lines);
        assert(log.deep_view() =~= before + added);
    }
}

/// Builds a configuration by hand, for tests and special cases.
pub struct ConfigBuilder {
    environment: Option<Environment>,
    server_host: Option<String>,
    server_port: Option<u16>,
    static_dir: Option<String>,
    database_url: Option<String>,
    github_token: Option<String>,
}

/// The mathematical value of a `ConfigBuilder`: what was set so far.
pub struct Choices {
    pub environment: Option<Environment>,
    pub server_host: Option<Seq<char>>,
    pub server_port: Option<u16>,
    pub static_dir: Option<Seq<char>>,
    pub database_url: Option<Seq<char>>,
    pub github_token: Option<Seq<char>>,
}

impl DeepView for ConfigBuilder {
    type V = Choices;

    closed spec fn deep_view(&self) -> Choices {
        Choices {
            environment: self.environment,
            server_host: self.server_host.deep_view(),
            server_port: self.server_port,
            static_dir: self.static_dir.deep_view(),
            database_url: self.database_url.deep_view(),
            github_token: self.github_token.deep_view(),
        }
    }
}

/// A chosen text, or `default` where none was chosen.
pub open spec fn chosen_or(choice: Option<Seq<char>>, default: Seq<char>) -> Seq<char> {
    match choice {
        Some(text) => text,
        None => default,
    }
}

/// The configuration that a builder's choices stand for.
pub open spec fn settings_built(choices: Choices) -> Settings {
    Settings {
        environment: match choices.environment {
            Some(environment) => environment,
            None => Environment::Development,
        },
        server: ServerSettings {
            host: chosen_or(choices.server_host, "127.0.0.1"@),
            port: match choices.server_port {
                Some(port) => port,
                None => 8000,
            },
            static_dir: chosen_or(choices.static_dir, "static"@),
            request_timeout: 30,
            max_body_size: 16_777_216,
        },
        database: match choices.database_url {
            Some(url) => Some(
                DatabaseSettings {
                    url,
                    max_connections: 10,
                    connect_timeout: 30,
                    query_timeout: 30,
                    enable_logging: false,
                },
            ),
            None => None,
        },
        external_api: ExternalApiSettings {
            github_token: choices.github_token,
            github_base_url: "https://api.github.com"@,
            request_timeout: 10,
            max_retries: 3,
        },
        security: SecuritySettings {
            jwt_secret: None,
            jwt_expiration: 86400,
            cors_origins: seq!["*"@],
            force_https: false,
        },
        log: LogSettings {
            level: LogLevel::Info,
            format: "pretty"@,
            file_logging: false,
            log_file: None,
        },
    }
}

impl ConfigBuilder {
    /// A builder with nothing set.
    pub fn new() -> (builder: Self)
        ensures
            builder.deep_view() == (Choices {
                environment: None,
                server_host: None,
                server_port: None,
                static_dir: None,
                database_url: None,
                github_token: None,
            }),
    {
        ConfigBuilder {
            environment: None,
            server_host: None,
            server_port: None,
            static_dir: None,
            database_url: None,
            github_token: None,
        }
    }

    /// Sets the environment.
    pub fn environment(self, env: Environment) -> (builder: Self)
        ensures
            builder.deep_view() == (Choices { environment: Some(env), ..self.deep_view() }),
    {
        let mut builder = self;
        builder.environment = Some(env);
        builder
    }

    /// Sets the address that the server listens on.
    pub fn server_address(self, host: &str, port: u16) -> (builder: Self)
        ensures
            builder.deep_view() == (Choices {
                server_host: Some(host@),
                server_port: Some(port),
                ..self.deep_view()
            }),
    {
        let mut builder = self;
        builder.server_host = Some(String::from_str(host));
        builder.server_port = Some(port);
        builder
    }

    /// Sets the directory of the static files.
    pub fn static_dir(self, dir: &str) -> (builder: Self)
        ensures
            builder.deep_view() == (Choices { static_dir: Some(dir@), ..self.deep_view() }),
    {
        let mut builder = self;
        builder.static_dir = Some(String::from_str(dir));
        builder
    }

    /// Sets the database's URL.
    pub fn database_url(self, url: &str) -> (builder: Self)
        ensures
            builder.deep_view() == (Choices { database_url: Some(url@), ..self.deep_view() }),
    {
        let mut builder = self;
        builder.database_url = Some(String::from_str(url));
        builder
    }

    /// Sets the GitHub token.
    pub fn github_token(self, token: &str) -> (builder: Self)
        ensures
            builder.deep_view() == (Choices { github_token: Some(token@), ..self.deep_view() }),
    {
        let mut builder = self;
        builder.github_token = Some(String::from_str(token));
        builder
    }

    /// Builds the configuration and checks it. What was not set has its
    /// default.
    pub fn build(self) -> (r: Result<Config, ConfigError>)
        ensures
            match validation_fault(settings_built(self.deep_view())) {
                None => r matches Ok(config) && config.deep_view() == settings_built(
                    self.deep_view(),
                ),
                Some(message) => r matches Err(e) && e.deep_view()
                    == (ConfigFault::ValidationError { message }),
            },
    {
        let mut cors_origins: Vec<String> = Vec::new();
        cors_origins.push(String::from_str("*"));
        assert(cors_origins.deep_view() =~= seq!["*"@]);
        let config = Config {
            environment: match self.environment {
                Some(environment) => environment,
                None => Environment::Development,
            },
            server: ServerConfig {
                host: match self.server_host {
                    Some(host) => host,
                    None => String::from_str("127.0.0.1"),
                },
                port: match self.server_port {
                    Some(port) => port,
                    None => 8000,
                },
                static_dir: match self.static_dir {
                    Some(dir) => dir,
                    None => String::from_str("static"),
                },
                request_timeout: 30,
                max_body_size: 16_777_216,
            },
            database: match self.database_url {
                Some(url) => Some(
                    DatabaseConfig {
                        url,
                        max_connections: 10,
                        connect_timeout: 30,
                        query_timeout: 30,
                        enable_logging: false,
                    },
                ),
                None => None,
            },
            external_api: ExternalApiConfig {
                github_token: self.github_token,
                github_base_url: String::from_str("https://api.github.com"),
                request_timeout: 10,
                max_retries: 3,
            },
            security: SecurityConfig {
                jwt_secret: None,
                jwt_expiration: 86400,
                cors_origins,
                force_https: false,
            },
            log: LogConfig {
                level: LogLevel::Info,
                format: String::from_str("pretty"),
                file_logging: false,
                log_file: None,
            },
        };
        match config.validate() {
            Ok(()) => Ok(config),
            Err(e) => Err(e),
        }
    }
}

impl Default for ConfigBuilder {
    fn default() -> (builder: Self)
        ensures
            builder.deep_view() == (Choices {
                environment: None,
                server_host: None,
                server_port: None,
                static_dir: None,
                database_url: None,
                github_token: None,
            }),
    {
        ConfigBuilder::new()
    }
}

} // verus!
