//! Process configuration, read from a snapshot of the environment.
//!
//! The caller hands in the environment as a list of key/value pairs; reading
//! the process environment is I/O and stays outside. Required variables must
//! be present, optional ones fall back to fixed defaults, numbers and
//! booleans are parsed the way the standard parser reads them, and the two
//! connection URLs are assembled from their parts. The first variable that
//! is absent or unreadable, in reading order, names the error.

use vstd::prelude::*;

use crate::text::{dec_int, spec_parse_bool, spec_parse_uint, parse_bool, parse_uint, str_eq,
    u64_to_string};

verus! {

/// Why the configuration could not be read: a required variable was absent,
/// or a variable held text its type cannot read.
#[derive(Clone, Debug, PartialEq, Eq)]
pub enum ConfigError {
    MissingVar { name: String },
    InvalidVar { name: String },
}

/// The relational store: its parts and the URL assembled from them.
#[derive(Clone, Debug)]
pub struct DatabaseConfig {
    pub db_name: String,
    pub db_user: String,
    pub db_password: String,
    pub db_host: String,
    pub db_port: u16,
    pub max_connections: u32,
    pub min_connections: u32,
    pub connect_timeout_secs: u64,
    pub db_url: String,
}

/// The cache store: host, port and the URL assembled from them.
#[derive(Clone, Debug)]
pub struct RedisConfig {
    pub host: String,
    pub port: u16,
    pub url: String,
}

/// The third-party identity provider.
#[derive(Clone, Debug)]
pub struct WechatConfig {
    pub app_id: String,
    pub app_secret: String,
}

/// Token signing.
#[derive(Clone, Debug)]
pub struct JwtConfig {
    pub secret: String,
    pub expire_days: u32,
}

/// The listen address.
#[derive(Clone, Debug)]
pub struct ServerConfig {
    pub host: String,
    pub port: u16,
}

/// Miscellaneous policy switches.
#[derive(Clone, Debug)]
pub struct SystemConfig {
    pub default_user_password: String,
    pub register_allowed: bool,
}

/// The whole process configuration.
#[derive(Clone, Debug)]
pub struct Config {
    pub database: DatabaseConfig,
    pub redis: RedisConfig,
    pub jwt: JwtConfig,
    pub server: ServerConfig,
    pub wechat: WechatConfig,
    pub system: SystemConfig,
}

/// The value of `key` in the environment snapshot, reading pairs in order.
pub open spec fn env_value_from(env: Seq<(String, String)>, key: Seq<char>, i: int) -> Option<
    Seq<char>,
>
    decreases env.len() - i,
{
    if 0 <= i < env.len() {
        if env[i].0@ == key {
            Some(env[i].1@)
        } else {
            env_value_from(env, key, i + 1)
        }
    } else {
        None
    }
}

/// The value of `key` in the environment snapshot.
pub open spec fn env_value(env: Seq<(String, String)>, key: Seq<char>) -> Option<Seq<char>> {
    env_value_from(env, key, 0)
}

/// The value of `key`, or `default` when the variable is absent.
pub open spec fn env_or(env: Seq<(String, String)>, key: Seq<char>, default: Seq<char>) -> Seq<
    char,
> {
    match env_value(env, key) {
        Some(v) => v,
        None => default,
    }
}

/// The number that the variable `key` (or its default text) denotes, up to
/// `max`; nothing when the text is no such number.
pub open spec fn env_uint(
    env: Seq<(String, String)>,
    key: Seq<char>,
    default: Seq<char>,
    max: int,
) -> Option<int> {
    spec_parse_uint(env_or(env, key, default), max)
}

/// One failure while reading a section: `true` marks a missing required
/// variable, `false` one that would not parse; the sequence names it.
pub open spec fn missing(name: Seq<char>) -> Option<(bool, Seq<char>)> {
    Some((true, name))
}

/// See [`missing`]: a variable that would not parse.
pub open spec fn invalid(name: Seq<char>) -> Option<(bool, Seq<char>)> {
    Some((false, name))
}

/// The first failure the database section meets in reading order, if any.
pub open spec fn db_failure(env: Seq<(String, String)>) -> Option<(bool, Seq<char>)> {
    if env_value(env, "DATABASE_USER"@) is None {
        missing("DATABASE_USER"@)
    } else if env_value(env, "DATABASE_PASSWORD"@) is None {
        missing("DATABASE_PASSWORD"@)
    } else if env_value(env, "DATABASE_HOST"@) is None {
        missing("DATABASE_HOST"@)
    } else if env_uint(env, "DATABASE_PORT"@, "5432"@, u16::MAX as int) is None {
        invalid("DATABASE_PORT"@)
    } else if env_value(env, "DATABASE_NAME"@) is None {
        missing("DATABASE_NAME"@)
    } else if env_uint(env, "DB_MAX_CONNECTIONS"@, "100"@, u32::MAX as int) is None {
        invalid("DB_MAX_CONNECTIONS"@)
    } else if env_uint(env, "DB_MIN_CONNECTIONS"@, "5"@, u32::MAX as int) is None {
        invalid("DB_MIN_CONNECTIONS"@)
    } else if env_uint(env, "DB_CONNECT_TIMEOUT"@, "8"@, u64::MAX as int) is None {
        invalid("DB_CONNECT_TIMEOUT"@)
    } else {
        None
    }
}

/// Whether `c` reads the database section of `env`: each part equal to its
/// variable (or default), and the URL assembled from the parts.
pub open spec fn db_matches(c: DatabaseConfig, env: Seq<(String, String)>) -> bool {
    &&& Some(c.db_user@) == env_value(env, "DATABASE_USER"@)
    &&& Some(c.db_password@) == env_value(env, "DATABASE_PASSWORD"@)
    &&& Some(c.db_host@) == env_value(env, "DATABASE_HOST"@)
    &&& Some(c.db_port as int) == env_uint(env, "DATABASE_PORT"@, "5432"@, u16::MAX as int)
    &&& Some(c.db_name@) == env_value(env, "DATABASE_NAME"@)
    &&& Some(c.max_connections as int) == env_uint(
        env,
        "DB_MAX_CONNECTIONS"@,
        "100"@,
        u32::MAX as int,
    )
    &&& Some(c.min_connections as int) == env_uint(
        env,
        "DB_MIN_CONNECTIONS"@,
        "5"@,
        u32::MAX as int,
    )
    &&& Some(c.connect_timeout_secs as int) == env_uint(
        env,
        "DB_CONNECT_TIMEOUT"@,
        "8"@,
        u64::MAX as int,
    )
    &&& c.db_url@ == "postgres://"@ + c.db_user@ + ":"@ + c.db_password@ + "@"@ + c.db_host@
        + ":"@ + dec_int(c.db_port as int) + "/"@ + c.db_name@
}

/// The first failure the cache-store section meets, if any.
pub open spec fn redis_failure(env: Seq<(String, String)>) -> Option<(bool, Seq<char>)> {
    if env_value(env, "REDIS_HOST"@) is None {
        missing("REDIS_HOST"@)
    } else if env_uint(env, "REDIS_PORT"@, "6379"@, u16::MAX as int) is None {
        invalid("REDIS_PORT"@)
    } else {
        None
    }
}

/// Whether `c` reads the cache-store section of `env`.
pub open spec fn redis_matches(c: RedisConfig, env: Seq<(String, String)>) -> bool {
    &&& Some(c.host@) == env_value(env, "REDIS_HOST"@)
    &&& Some(c.port as int) == env_uint(env, "REDIS_PORT"@, "6379"@, u16::MAX as int)
    &&& c.url@ == "redis://"@ + c.host@ + ":"@ + dec_int(c.port as int)
}

/// The first failure the token section meets, if any.
pub open spec fn jwt_failure(env: Seq<(String, String)>) -> Option<(bool, Seq<char>)> {
    if env_value(env, "JWT_SECRET"@) is None {
        missing("JWT_SECRET"@)
    } else if env_uint(env, "JWT_EXPIRE"@, "7"@, u32::MAX as int) is None {
        invalid("JWT_EXPIRE"@)
    } else {
        None
    }
}

/// Whether `c` reads the token section of `env`.
pub open spec fn jwt_matches(c: JwtConfig, env: Seq<(String, String)>) -> bool {
    &&& Some(c.secret@) == env_value(env, "JWT_SECRET"@)
    &&& Some(c.expire_days as int) == env_uint(env, "JWT_EXPIRE"@, "7"@, u32::MAX as int)
}

/// The first failure the listen-address section meets, if any.
pub open spec fn server_failure(env: Seq<(String, String)>) -> Option<(bool, Seq<char>)> {
    if env_uint(env, "LISTEN_PORT"@, "3000"@, u16::MAX as int) is None {
        invalid("LISTEN_PORT"@)
    } else {
        None
    }
}

/// Whether `c` reads the listen-address section of `env`.
pub open spec fn server_matches(c: ServerConfig, env: Seq<(String, String)>) -> bool {
    &&& c.host@ == env_or(env, "LISTEN_HOST"@, "0.0.0.0"@)
    &&& Some(c.port as int) == env_uint(env, "LISTEN_PORT"@, "3000"@, u16::MAX as int)
}

/// The first failure the identity-provider section meets, if any.
pub open spec fn wechat_failure(env: Seq<(String, String)>) -> Option<(bool, Seq<char>)> {
    if env_value(env, "WECHAT_APP_ID"@) is None {
        missing("WECHAT_APP_ID"@)
    } else if env_value(env, "WECHAT_APP_SECRET"@) is None {
        missing("WECHAT_APP_SECRET"@)
    } else {
        None
    }
}

/// Whether `c` reads the identity-provider section of `env`.
pub open spec fn wechat_matches(c: WechatConfig, env: Seq<(String, String)>) -> bool {
    &&& Some(c.app_id@) == env_value(env, "WECHAT_APP_ID"@)
    &&& Some(c.app_secret@) == env_value(env, "WECHAT_APP_SECRET"@)
}

/// The first failure the policy section meets, if any.
pub open spec fn system_failure(env: Seq<(String, String)>) -> Option<(bool, Seq<char>)> {
    if spec_parse_bool(env_or(env, "REGISTER_ALLOWED"@, "false"@)) is None {
        invalid("REGISTER_ALLOWED"@)
    } else {
        None
    }
}

/// Whether `c` reads the policy section of `env`.
pub open spec fn system_matches(c: SystemConfig, env: Seq<(String, String)>) -> bool {
    &&& c.default_user_password@ == env_or(env, "DEFAULT_USER_PASSWORD"@, "123456"@)
    &&& Some(c.register_allowed) == spec_parse_bool(env_or(env, "REGISTER_ALLOWED"@, "false"@))
}

/// The first failure any section meets, sections in reading order.
pub open spec fn config_failure(env: Seq<(String, String)>) -> Option<(bool, Seq<char>)> {
    if db_failure(env) is Some {
        db_failure(env)
    } else if redis_failure(env) is Some {
        redis_failure(env)
    } else if jwt_failure(env) is Some {
        jwt_failure(env)
    } else if server_failure(env) is Some {
        server_failure(env)
    } else if wechat_failure(env) is Some {
        wechat_failure(env)
    } else {
        system_failure(env)
    }
}

/// Whether `e` reports the failure `f`: the right kind, naming the right
/// variable.
pub open spec fn reports(e: ConfigError, f: (bool, Seq<char>)) -> bool {
    match e {
        ConfigError::MissingVar { name } => f.0 && name@ == f.1,
        ConfigError::InvalidVar { name } => !f.0 && name@ == f.1,
    }
}

/// The value of `key` in the snapshot, reading pairs in order.
fn env_lookup<'a>(env: &'a Vec<(String, String)>, key: &str) -> (r: Option<&'a String>)
    ensures
        match r {
            Some(v) => env_value(env@, key@) == Some(v@),
            None => env_value(env@, key@) is None,
        },
{
    env_lookup_from(env, key, 0)
}

/// The value of `key` at or after position `i`.
fn env_lookup_from<'a>(env: &'a Vec<(String, String)>, key: &str, i: usize) -> (r: Option<
    &'a String,
>)
    requires
        i <= env@.len(),
    ensures
        match r {
            Some(v) => env_value_from(env@, key@, i as int) == Some(v@),
            None => env_value_from(env@, key@, i as int) is None,
        },
    decreases env@.len() - i,
{
    if i >= env.len() {
        return None;
    }
    if str_eq(env[i].0.as_str(), key) {
        Some(&env[i].1)
    } else {
        env_lookup_from(env, key, i + 1)
    }
}

/// A required variable: its value, or the error that names it.
fn require_var(env: &Vec<(String, String)>, key: &str) -> (r: Result<String, ConfigError>)
    ensures
        match r {
            Ok(v) => env_value(env@, key@) == Some(v@),
            Err(e) => env_value(env@, key@) is None && (e matches ConfigError::MissingVar {
                name,
            } && name@ == key@),
        },
{
    match env_lookup(env, key) {
        Some(v) => Ok(v.clone()),
        None => Err(ConfigError::MissingVar { name: key.to_owned() }),
    }
}

/// An optional variable with a default text.
fn var_or<'a>(env: &'a Vec<(String, String)>, key: &str, default: &'a str) -> (r: &'a str)
    ensures
        r@ == env_or(env@, key@, default@),
{
    match env_lookup(env, key) {
        Some(v) => v.as_str(),
        None => default,
    }
}

/// An optional numeric variable: its value up to `max`, or the error that
/// names it.
fn require_uint(env: &Vec<(String, String)>, key: &str, default: &str, max: u64) -> (r: Result<
    u64,
    ConfigError,
>)
    ensures
        match r {
            Ok(v) => env_uint(env@, key@, default@, max as int) == Some(v as int) && v <= max,
            Err(e) => env_uint(env@, key@, default@, max as int) is None && (
            e matches ConfigError::InvalidVar { name } && name@ == key@),
        },
{
    let text = var_or(env, key, default);
    match parse_uint(text, max) {
        Some(v) => Ok(v),
        None => Err(ConfigError::InvalidVar { name: key.to_owned() }),
    }
}

impl DatabaseConfig {
    /// Reads the database section from the snapshot.
    fn from_env(env: &Vec<(String, String)>) -> (r: Result<DatabaseConfig, ConfigError>)
        ensures
            r is Ok <==> db_failure(env@) is None,
            r matches Ok(c) ==> db_matches(c, env@),
            r matches Err(e) ==> reports(e, db_failure(env@).unwrap()),
    {
        let db_user = match require_var(env, "DATABASE_USER") {
            Ok(v) => v,
            Err(e) => { return Err(e); },
        };
        let db_password = match require_var(env, "DATABASE_PASSWORD") {
            Ok(v) => v,
            Err(e) => { return Err(e); },
        };
        let db_host = match require_var(env, "DATABASE_HOST") {
            Ok(v) => v,
            Err(e) => { return Err(e); },
        };
        let db_port = match require_uint(env, "DATABASE_PORT", "5432", 65535) {
            Ok(v) => v as u16,
            Err(e) => { return Err(e); },
        };
        let db_name = match require_var(env, "DATABASE_NAME") {
            Ok(v) => v,
            Err(e) => { return Err(e); },
        };
        let max_connections = match require_uint(env, "DB_MAX_CONNECTIONS", "100", 0xffff_ffff) {
            Ok(v) => v as u32,
            Err(e) => { return Err(e); },
        };
        let min_connections = match require_uint(env, "DB_MIN_CONNECTIONS", "5", 0xffff_ffff) {
            Ok(v) => v as u32,
            Err(e) => { return Err(e); },
        };
        let connect_timeout_secs = match require_uint(env, "DB_CONNECT_TIMEOUT", "8", u64::MAX) {
            Ok(v) => v,
            Err(e) => { return Err(e); },
        };
        let mut db_url = "postgres://".to_owned();
        proof {
            reveal_strlit("postgres://");
            reveal_strlit(":");
            reveal_strlit("@");
            reveal_strlit("/");
        }
        db_url.append(db_user.as_str());
        db_url.append(":");
        db_url.append(db_password.as_str());
        db_url.append("@");
        db_url.append(db_host.as_str());
        db_url.append(":");
        db_url.append(u64_to_string(db_port as u64).as_str());
        db_url.append("/");
        db_url.append(db_name.as_str());
        Ok(
            DatabaseConfig {
                db_name,
                db_user,
                db_password,
                db_host,
                db_port,
                max_connections,
                min_connections,
                connect_timeout_secs,
                db_url,
            },
        )
    }
}

impl RedisConfig {
    /// Reads the cache-store section from the snapshot.
    fn from_env(env: &Vec<(String, String)>) -> (r: Result<RedisConfig, ConfigError>)
        ensures
            r is Ok <==> redis_failure(env@) is None,
            r matches Ok(c) ==> redis_matches(c, env@),
            r matches Err(e) ==> reports(e, redis_failure(env@).unwrap()),
    {
        let host = match require_var(env, "REDIS_HOST") {
            Ok(v) => v,
            Err(e) => { return Err(e); },
        };
        let port = match require_uint(env, "REDIS_PORT", "6379", 65535) {
            Ok(v) => v as u16,
            Err(e) => { return Err(e); },
        };
        let mut url = "redis://".to_owned();
        proof {
            reveal_strlit("redis://");
            reveal_strlit(":");
        }
        url.append(host.as_str());
        url.append(":");
        url.append(u64_to_string(port as u64).as_str());
        Ok(RedisConfig { host, port, url })
    }
}

impl JwtConfig {
    /// Reads the token section from the snapshot.
    fn from_env(env: &Vec<(String, String)>) -> (r: Result<JwtConfig, ConfigError>)
        ensures
            r is Ok <==> jwt_failure(env@) is None,
            r matches Ok(c) ==> jwt_matches(c, env@),
            r matches Err(e) ==> reports(e, jwt_failure(env@).unwrap()),
    {
        let secret = match require_var(env, "JWT_SECRET") {
            Ok(v) => v,
            Err(e) => { return Err(e); },
        };
        let expire_days = match require_uint(env, "JWT_EXPIRE", "7", 0xffff_ffff) {
            Ok(v) => v as u32,
            Err(e) => { return Err(e); },
        };
        Ok(JwtConfig { secret, expire_days })
    }
}

impl ServerConfig {
    /// Reads the listen-address section from the snapshot.
    fn from_env(env: &Vec<(String, String)>) -> (r: Result<ServerConfig, ConfigError>)
        ensures
            r is Ok <==> server_failure(env@) is None,
            r matches Ok(c) ==> server_matches(c, env@),
            r matches Err(e) ==> reports(e, server_failure(env@).unwrap()),
    {
        let host = var_or(env, "LISTEN_HOST", "0.0.0.0").to_owned();
        let port = match require_uint(env, "LISTEN_PORT", "3000", 65535) {
            Ok(v) => v as u16,
            Err(e) => { return Err(e); },
        };
        Ok(ServerConfig { host, port })
    }
}

impl WechatConfig {
    /// Reads the identity-provider section from the snapshot.
    fn from_env(env: &Vec<(String, String)>) -> (r: Result<WechatConfig, ConfigError>)
        ensures
            r is Ok <==> wechat_failure(env@) is None,
            r matches Ok(c) ==> wechat_matches(c, env@),
            r matches Err(e) ==> reports(e, wechat_failure(env@).unwrap()),
    {
        let app_id = match require_var(env, "WECHAT_APP_ID") {
            Ok(v) => v,
            Err(e) => { return Err(e); },
        };
        let app_secret = match require_var(env, "WECHAT_APP_SECRET") {
            Ok(v) => v,
            Err(e) => { return Err(e); },
        };
        Ok(WechatConfig { app_id, app_secret })
    }
}

impl SystemConfig {
    /// Reads the policy section from the snapshot.
    fn from_env(env: &Vec<(String, String)>) -> (r: Result<SystemConfig, ConfigError>)
        ensures
            r is Ok <==> system_failure(env@) is None,
            r matches Ok(c) ==> system_matches(c, env@),
            r matches Err(e) ==> reports(e, system_failure(env@).unwrap()),
    {
        let default_user_password = var_or(env, "DEFAULT_USER_PASSWORD", "123456").to_owned();
        let register_allowed = match parse_bool(var_or(env, "REGISTER_ALLOWED", "false")) {
            Some(b) => b,
            None => {
                return Err(ConfigError::InvalidVar { name: "REGISTER_ALLOWED".to_owned() });
            },
        };
        Ok(SystemConfig { default_user_password, register_allowed })
    }
}

impl Config {
    /// Reads the whole configuration from the snapshot: every section in
    /// reading order, stopping at the first variable that is absent or
    /// unreadable, which the error names.
    pub fn from_env(env: &Vec<(String, String)>) -> (r: Result<Config, ConfigError>)
        ensures
            r is Ok <==> config_failure(env@) is None,
            r matches Ok(c) ==> db_matches(c.database, env@) && redis_matches(c.redis, env@)
                && jwt_matches(c.jwt, env@) && server_matches(c.server, env@) && wechat_matches(
                c.wechat,
                env@,
            ) && system_matches(c.system, env@),
            r matches Err(e) ==> reports(e, config_failure(env@).unwrap()),
    {
        let database = match DatabaseConfig::from_env(env) {
            Ok(c) => c,
            Err(e) => { return Err(e); },
        };
        let redis = match RedisConfig::from_env(env) {
            Ok(c) => c,
            Err(e) => { return Err(e); },
        };
        let jwt = match JwtConfig::from_env(env) {
            Ok(c) => c,
            Err(e) => { return Err(e); },
        };
        let server = match ServerConfig::from_env(env) {
            Ok(c) => c,
            Err(e) => { return Err(e); },
        };
        let wechat = match WechatConfig::from_env(env) {
            Ok(c) => c,
            Err(e) => { return Err(e); },
        };
        let system = match SystemConfig::from_env(env) {
            Ok(c) => c,
            Err(e) => { return Err(e); },
        };
        Ok(Config { database, redis, jwt, server, wechat, system })
    }
}

} // verus!
