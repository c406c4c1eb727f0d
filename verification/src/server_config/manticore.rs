//! Settings of the full-text search backend.

use vstd::prelude::*;

use crate::server_config::{or_empty, spec_num, spec_num_ok, EnvParseError, EnvVars, ServerConfig};

verus! {

/// Whether the environment holds everything this backend requires: an
/// address, and a port that fits 16 bits.
pub open spec fn manticore_load_ok(env: &EnvVars) -> bool {
    &&& env.lookup("MANTICORE_URI"@) is Some
    &&& spec_num_ok(env, "MANTICORE_PORT"@, 0xFFFF)
}

/// The error a failing load reports for this backend.
pub open spec fn manticore_err_matches(env: &EnvVars, e: EnvParseError) -> bool {
    if env.lookup("MANTICORE_URI"@) is None {
        e matches EnvParseError::KeyNotFound(k) && k@ == "MANTICORE_URI"@
    } else if env.lookup("MANTICORE_PORT"@) is None {
        e matches EnvParseError::KeyNotFound(k) && k@ == "MANTICORE_PORT"@
    } else {
        !spec_num_ok(env, "MANTICORE_PORT"@, 0xFFFF) && (e matches EnvParseError::InvalidNumber(
            k,
            _,
        ) && k@ == "MANTICORE_PORT"@)
    }
}

#[derive(Clone, Debug, PartialEq)]
pub struct ManticoreConfig {
    pub uri: String,
    pub port: u16,
    pub user: String,
    pub password: String,
    pub prefix: String,
}

impl ManticoreConfig {
    /// Whether this value is what loading from `env` yields.
    pub open spec fn from_env(self, env: &EnvVars) -> bool {
        &&& env.lookup("MANTICORE_URI"@) matches Some(u) && self.uri@ == u
        &&& spec_num_ok(env, "MANTICORE_PORT"@, 0xFFFF) && self.port == spec_num(
            env,
            "MANTICORE_PORT"@,
        ) as u16
        &&& self.user@ == or_empty(env.lookup("MANTICORE_USER"@))
        &&& self.password@ == or_empty(env.lookup("MANTICORE_PASSWORD"@))
        &&& self.prefix@ == or_empty(env.lookup("MANTICORE_PREFIX"@))
    }

    /// Read this backend's settings: the address and a 16-bit port are
    /// required; credentials and the table prefix default to empty strings.
    pub fn load(env: &EnvVars) -> (r: Result<ManticoreConfig, EnvParseError>)
        ensures
            r is Ok <==> manticore_load_ok(env),
            r matches Ok(c) ==> c.from_env(env),
            r matches Err(e) ==> manticore_err_matches(env, e),
    {
        let uri = match ServerConfig::get_str(env, "MANTICORE_URI") {
            Ok(v) => v,
            Err(e) => {
                return Err(e);
            },
        };
        let port_num = match ServerConfig::get_num(env, "MANTICORE_PORT") {
            Ok(p) => p,
            Err(e) => {
                return Err(e);
            },
        };
        if port_num > 0xFFFF {
            return Err(
                EnvParseError::InvalidNumber(
                    "MANTICORE_PORT".to_owned(),
                    "does not fit a 16-bit port".to_owned(),
                ),
            );
        }
        let port = port_num as u16;
        let user = match ServerConfig::get_str(env, "MANTICORE_USER") {
            Ok(v) => v,
            Err(_) => String::new(),
        };
        let password = match ServerConfig::get_str(env, "MANTICORE_PASSWORD") {
            Ok(v) => v,
            Err(_) => String::new(),
        };
        let prefix = match ServerConfig::get_str(env, "MANTICORE_PREFIX") {
            Ok(v) => v,
            Err(_) => String::new(),
        };
        Ok(ManticoreConfig { uri, port, user, password, prefix })
    }

    /// Whether credentials were configured: both a user and a password.
    pub fn had_auth(&self) -> (r: bool)
        ensures
            r == (self.user@.len() > 0 && self.password@.len() > 0),
    {
        !self.user.as_str().is_empty() && !self.password.as_str().is_empty()
    }
}

} // verus!
