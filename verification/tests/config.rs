use momoka_core::server_config::{EnvParseError, EnvVars, ServerConfig};
use momoka_core::server_config::database::DatabaseConfig;
use momoka_core::server_config::manticore::ManticoreConfig;
use momoka_core::server_config::redis::RedisConfig;
use momoka_core::server_config::scylla::ScyllaConfig;

fn full_env() -> EnvVars {
    let mut env = EnvVars::new();
    env.push("SCYLLA_KEYSPACE".to_string(), "momoka".to_string());
    env.push("SCYLLA_URI".to_string(), "scylla:9042".to_string());
    env.push("MANTICORE_URI".to_string(), "manticore".to_string());
    env.push("MANTICORE_PORT".to_string(), "9306".to_string());
    env.push("REDIS_URI".to_string(), "redis://cache/".to_string());
    env
}

#[test]
fn load_with_a_full_environment() {
    let mut env = full_env();
    env.push("RUST_ENV".to_string(), "production".to_string());
    env.push("HTTP_PORT".to_string(), "8081".to_string());
    env.push("NUM_WORKER".to_string(), "4".to_string());
    let config = ServerConfig::load(&env).unwrap();
    assert!(config.is_production);
    assert_eq!(config.http_port, 8081);
    assert_eq!(config.num_worker, 4);
    assert_eq!(config.database.scylla.keyspace, "momoka");
    assert_eq!(config.database.scylla.uri, "scylla:9042");
    assert_eq!(config.database.manticore.uri, "manticore");
    assert_eq!(config.database.manticore.port, 9306);
    assert_eq!(config.database.redis.uri, "redis://cache/");
}

#[test]
fn load_defaults_port_and_workers() {
    let env = full_env();
    let config = ServerConfig::load(&env).unwrap();
    assert!(!config.is_production);
    assert_eq!(config.http_port, 8080);
    assert_eq!(config.num_worker, 2);
}

#[test]
fn malformed_port_falls_back_to_default() {
    let mut env = full_env();
    env.push("HTTP_PORT".to_string(), "eighty".to_string());
    env.push("RUST_ENV".to_string(), "development".to_string());
    let config = ServerConfig::load(&env).unwrap();
    assert_eq!(config.http_port, 8080);
    assert!(!config.is_production);
}

#[test]
fn missing_keyspace_is_reported_first() {
    let mut env = EnvVars::new();
    env.push("MANTICORE_URI".to_string(), "manticore".to_string());
    env.push("MANTICORE_PORT".to_string(), "9306".to_string());
    env.push("REDIS_URI".to_string(), "redis://cache/".to_string());
    let err = DatabaseConfig::load(&env).unwrap_err();
    assert_eq!(err, EnvParseError::KeyNotFound("SCYLLA_KEYSPACE".to_string()));
}

#[test]
fn empty_keyspace_is_rejected() {
    let mut env = EnvVars::new();
    env.push("SCYLLA_KEYSPACE".to_string(), "".to_string());
    let err = ScyllaConfig::load(&env).unwrap_err();
    assert_eq!(err, EnvParseError::KeyIsEmpty("SCYLLA_KEYSPACE".to_string()));
}

#[test]
fn oversized_manticore_port_is_an_invalid_number() {
    let mut env = full_env();
    env.push("MANTICORE_PORT".to_string(), "70000".to_string());
    let err = ManticoreConfig::load(&env).unwrap_err();
    assert!(matches!(err, EnvParseError::InvalidNumber(k, _) if k == "MANTICORE_PORT"));
}

#[test]
fn missing_redis_uri_is_a_missing_key() {
    let env = EnvVars::new();
    let err = RedisConfig::load(&env).unwrap_err();
    assert_eq!(err, EnvParseError::KeyNotFound("REDIS_URI".to_string()));
}

#[test]
fn credentials_default_to_absent() {
    let env = full_env();
    let scylla = ScyllaConfig::load(&env).unwrap();
    assert_eq!(scylla.user, "");
    assert_eq!(scylla.password, "");
    assert!(!scylla.had_auth());
    let manticore = ManticoreConfig::load(&env).unwrap();
    assert!(!manticore.had_auth());
    assert_eq!(manticore.prefix, "");
}

#[test]
fn had_auth_requires_both_user_and_password() {
    let mut env = full_env();
    env.push("SCYLLA_USER".to_string(), "admin".to_string());
    let scylla = ScyllaConfig::load(&env).unwrap();
    assert!(!scylla.had_auth());
    env.push("SCYLLA_PASSWORD".to_string(), "SECRET-REDACTED".to_string());
    let scylla = ScyllaConfig::load(&env).unwrap();
    assert!(scylla.had_auth());
}

#[test]
fn get_num_reads_exact_values() {
    let mut env = EnvVars::new();
    env.push("A".to_string(), "42".to_string());
    env.push("B".to_string(), "+42".to_string());
    env.push("C".to_string(), "".to_string());
    env.push("D".to_string(), "18446744073709551616".to_string());
    env.push("E".to_string(), "18446744073709551615".to_string());
    assert_eq!(ServerConfig::get_num(&env, "A").unwrap(), 42);
    assert_eq!(ServerConfig::get_num(&env, "B").unwrap(), 42);
    assert!(matches!(
        ServerConfig::get_num(&env, "C"),
        Err(EnvParseError::InvalidNumber(_, _))
    ));
    assert!(matches!(
        ServerConfig::get_num(&env, "D"),
        Err(EnvParseError::InvalidNumber(_, _))
    ));
    assert_eq!(ServerConfig::get_num(&env, "E").unwrap(), u64::MAX);
    assert_eq!(
        ServerConfig::get_num(&env, "F").unwrap_err(),
        EnvParseError::KeyNotFound("F".to_string())
    );
}

#[test]
fn later_environment_entries_override_earlier_ones() {
    let mut env = EnvVars::new();
    env.push("K".to_string(), "one".to_string());
    env.push("K".to_string(), "two".to_string());
    assert_eq!(ServerConfig::get_str(&env, "K").unwrap(), "two");
}
