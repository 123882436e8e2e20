use fanout_core::config::{Config, ConfigError};
use fanout_core::paging::{ListParamsReq, PagingResponse};
use fanout_core::redis_store::{CacheStoreError, RedisCache};
use fanout_core::response::{ApiResponse, APP_OK, APP_OTHER};

fn pair(k: &str, v: &str) -> (String, String) {
    (String::from(k), String::from(v))
}

fn full_env() -> Vec<(String, String)> {
    vec![
        pair("DATABASE_USER", "app"),
        pair("DATABASE_PASSWORD", "SECRET-REDACTED"),
        pair("DATABASE_HOST", "db.internal"),
        pair("DATABASE_NAME", "school"),
        pair("REDIS_HOST", "cache.internal"),
        pair("JWT_SECRET", "SECRET-REDACTED"),
        pair("WECHAT_APP_ID", "wx123"),
        pair("WECHAT_APP_SECRET", "SECRET-REDACTED"),
    ]
}

#[test]
fn config_reads_required_vars_and_defaults() {
    let cfg = Config::from_env(&full_env()).unwrap();
    assert_eq!(cfg.database.db_user, "app");
    assert_eq!(cfg.database.db_host, "db.internal");
    assert_eq!(cfg.database.db_name, "school");
    assert_eq!(cfg.database.db_port, 5432);
    assert_eq!(cfg.database.max_connections, 100);
    assert_eq!(cfg.database.min_connections, 5);
    assert_eq!(cfg.database.connect_timeout_secs, 8);
    assert_eq!(
        cfg.database.db_url,
        format!("postgres://app:{}@db.internal:5432/school", cfg.database.db_password)
    );
    assert_eq!(cfg.redis.host, "cache.internal");
    assert_eq!(cfg.redis.port, 6379);
    assert_eq!(cfg.redis.url, "redis://cache.internal:6379");
    assert_eq!(cfg.jwt.expire_days, 7);
    assert_eq!(cfg.server.host, "0.0.0.0");
    assert_eq!(cfg.server.port, 3000);
    assert_eq!(cfg.system.default_user_password, "123456");
    assert!(!cfg.system.register_allowed);
}

#[test]
fn config_prefers_given_values_over_defaults() {
    let mut env = full_env();
    env.push(pair("DATABASE_PORT", "15432"));
    env.push(pair("REDIS_PORT", "7000"));
    env.push(pair("LISTEN_HOST", "127.0.0.1"));
    env.push(pair("LISTEN_PORT", "8080"));
    env.push(pair("JWT_EXPIRE", "30"));
    env.push(pair("REGISTER_ALLOWED", "true"));
    env.push(pair("DEFAULT_USER_PASSWORD", "changeme"));
    let cfg = Config::from_env(&env).unwrap();
    assert_eq!(cfg.database.db_port, 15432);
    assert!(cfg.database.db_url.contains(":15432/"));
    assert_eq!(cfg.redis.url, "redis://cache.internal:7000");
    assert_eq!(cfg.server.host, "127.0.0.1");
    assert_eq!(cfg.server.port, 8080);
    assert_eq!(cfg.jwt.expire_days, 30);
    assert!(cfg.system.register_allowed);
    assert_eq!(cfg.system.default_user_password, "changeme");
}

#[test]
fn missing_required_var_names_itself() {
    let mut env = full_env();
    env.retain(|(k, _)| k != "JWT_SECRET");
    let err = Config::from_env(&env).unwrap_err();
    assert_eq!(err, ConfigError::MissingVar { name: String::from("JWT_SECRET") });
}

#[test]
fn first_missing_var_in_reading_order_wins() {
    let env: Vec<(String, String)> = vec![];
    let err = Config::from_env(&env).unwrap_err();
    assert_eq!(err, ConfigError::MissingVar { name: String::from("DATABASE_USER") });
}

#[test]
fn unreadable_number_names_itself() {
    let mut env = full_env();
    env.push(pair("DATABASE_PORT", "not-a-port"));
    let err = Config::from_env(&env).unwrap_err();
    assert_eq!(err, ConfigError::InvalidVar { name: String::from("DATABASE_PORT") });

    let mut env = full_env();
    env.push(pair("DATABASE_PORT", "65536"));
    let err = Config::from_env(&env).unwrap_err();
    assert_eq!(err, ConfigError::InvalidVar { name: String::from("DATABASE_PORT") });

    let mut env = full_env();
    env.push(pair("REGISTER_ALLOWED", "yes"));
    let err = Config::from_env(&env).unwrap_err();
    assert_eq!(err, ConfigError::InvalidVar { name: String::from("REGISTER_ALLOWED") });
}

#[test]
fn cache_store_client_needs_a_readable_url() {
    assert!(RedisCache::new("redis://127.0.0.1:6379").is_ok());
    assert_eq!(
        RedisCache::new("not a url").map(|_| ()),
        Err(CacheStoreError::InvalidUrl)
    );
}

#[test]
fn paging_defaults_fill_absent_parameters() {
    let d = ListParamsReq::default();
    assert_eq!(d.page, Some(1));
    assert_eq!(d.page_size, Some(20));
    assert_eq!(d.effective(), (1, 20));

    let given = ListParamsReq { page: Some(3), page_size: None };
    assert_eq!(given.effective(), (3, 20));
    let given = ListParamsReq { page: None, page_size: Some(50) };
    assert_eq!(given.effective(), (1, 50));

    let page: PagingResponse<u32> = PagingResponse { list: vec![1, 2, 3], page: 1, total: 3 };
    assert_eq!(page.list.len(), 3);
}

#[test]
fn response_envelopes_carry_their_fields() {
    let ok: ApiResponse<u32> = ApiResponse::success(7);
    assert_eq!(ok.code, APP_OK);
    assert_eq!(ok.message, "success");
    assert_eq!(ok.data, Some(7));
    assert!(ok.success);

    let err: ApiResponse<u32> = ApiResponse::error_with_message(String::from("boom"));
    assert_eq!(err.code, APP_OTHER);
    assert_eq!(err.message, "boom");
    assert_eq!(err.data, None);
    assert!(!err.success);

    let coded: ApiResponse<u32> =
        ApiResponse::error_with_message_and_code(String::from("forbidden"), 5006);
    assert_eq!(coded.code, 5006);
    assert!(!coded.success);
}
