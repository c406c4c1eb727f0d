//! Settings of all storage backends together.

use vstd::prelude::*;

use crate::server_config::manticore::{manticore_err_matches, manticore_load_ok, ManticoreConfig};
use crate::server_config::redis::{redis_err_matches, redis_load_ok, RedisConfig};
use crate::server_config::scylla::{scylla_err_matches, scylla_load_ok, ScyllaConfig};
use crate::server_config::{EnvParseError, EnvVars};

verus! {

/// Whether the environment holds everything every backend requires.
pub open spec fn database_load_ok(env: &EnvVars) -> bool {
    scylla_load_ok(env) && manticore_load_ok(env) && redis_load_ok(env)
}

/// The error a failing load reports: the first backend with a missing or
/// malformed setting, in the order wide-column store, search store, cache.
pub open spec fn database_err_matches(env: &EnvVars, e: EnvParseError) -> bool {
    if !scylla_load_ok(env) {
        scylla_err_matches(env, e)
    } else if !manticore_load_ok(env) {
        manticore_err_matches(env, e)
    } else {
        redis_err_matches(env, e)
    }
}

#[derive(Clone, Debug, PartialEq)]
pub struct DatabaseConfig {
    pub scylla: ScyllaConfig,
    pub manticore: ManticoreConfig,
    pub redis: RedisConfig,
}

impl DatabaseConfig {
    /// Read every backend's settings; fail on the first backend whose
    /// settings are missing or malformed.
    pub fn load(env: &EnvVars) -> (r: Result<DatabaseConfig, EnvParseError>)
        ensures
            r is Ok <==> database_load_ok(env),
            r matches Ok(c) ==> c.scylla.from_env(env) && c.manticore.from_env(env)
                && c.redis.from_env(env),
            r matches Err(e) ==> database_err_matches(env, e),
    {
        let scylla = match ScyllaConfig::load(env) {
            Ok(c) => c,
            Err(e) => {
                return Err(e);
            },
        };
        let manticore = match ManticoreConfig::load(env) {
            Ok(c) => c,
            Err(e) => {
                return Err(e);
            },
        };
        let redis = match RedisConfig::load(env) {
            Ok(c) => c,
            Err(e) => {
                return Err(e);
            },
        };
        Ok(DatabaseConfig { scylla, manticore, redis })
    }
}

} // verus!
