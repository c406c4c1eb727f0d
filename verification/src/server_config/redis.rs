//! Settings of the cache backend.

use vstd::prelude::*;

use crate::server_config::{EnvParseError, EnvVars, ServerConfig};

verus! {

/// Whether the environment holds everything this backend requires: an
/// address.
pub open spec fn redis_load_ok(env: &EnvVars) -> bool {
    env.lookup("REDIS_URI"@) is Some
}

/// The error a failing load reports for this backend.
pub open spec fn redis_err_matches(env: &EnvVars, e: EnvParseError) -> bool {
    env.lookup("REDIS_URI"@) is None && (e matches EnvParseError::KeyNotFound(k) && k@
        == "REDIS_URI"@)
}

#[derive(Clone, Debug, PartialEq)]
pub struct RedisConfig {
    pub uri: String,
}

impl RedisConfig {
    /// Whether this value is what loading from `env` yields.
    pub open spec fn from_env(self, env: &EnvVars) -> bool {
        env.lookup("REDIS_URI"@) matches Some(u) && self.uri@ == u
    }

    /// Read this backend's settings: the address is required.
    pub fn load(env: &EnvVars) -> (r: Result<RedisConfig, EnvParseError>)
        ensures
            r is Ok <==> redis_load_ok(env),
            r matches Ok(c) ==> c.from_env(env),
            r matches Err(e) ==> redis_err_matches(env, e),
    {
        match ServerConfig::get_str(env, "REDIS_URI") {
            Ok(uri) => Ok(RedisConfig { uri }),
            Err(e) => Err(e),
        }
    }
}

} // verus!
