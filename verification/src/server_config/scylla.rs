//! Settings of the wide-column backend.

use vstd::prelude::*;

use crate::server_config::{or_empty, EnvParseError, EnvVars, ServerConfig};

verus! {

/// Whether the environment holds everything this backend requires: a
/// non-empty keyspace.
pub open spec fn scylla_load_ok(env: &EnvVars) -> bool {
    env.lookup("SCYLLA_KEYSPACE"@) matches Some(ks) && ks.len() > 0
}

/// The error a failing load reports for this backend.
pub open spec fn scylla_err_matches(env: &EnvVars, e: EnvParseError) -> bool {
    match env.lookup("SCYLLA_KEYSPACE"@) {
        None => e matches EnvParseError::KeyNotFound(k) && k@ == "SCYLLA_KEYSPACE"@,
        Some(ks) => ks.len() == 0 && (e matches EnvParseError::KeyIsEmpty(k) && k@
            == "SCYLLA_KEYSPACE"@),
    }
}

#[derive(Clone, Debug, PartialEq)]
pub struct ScyllaConfig {
    pub uri: String,
    pub user: String,
    pub password: String,
    pub keyspace: String,
}

impl ScyllaConfig {
    /// Whether this value is what loading from `env` yields.
    pub open spec fn from_env(self, env: &EnvVars) -> bool {
        &&& self.uri@ == or_empty(env.lookup("SCYLLA_URI"@))
        &&& self.user@ == or_empty(env.lookup("SCYLLA_USER"@))
        &&& self.password@ == or_empty(env.lookup("SCYLLA_PASSWORD"@))
        &&& env.lookup("SCYLLA_KEYSPACE"@) matches Some(ks) && self.keyspace@ == ks
    }

    /// Read this backend's settings: the keyspace is required and must not
    /// be empty; address and credentials default to empty strings.
    pub fn load(env: &EnvVars) -> (r: Result<ScyllaConfig, EnvParseError>)
        ensures
            r is Ok <==> scylla_load_ok(env),
            r matches Ok(c) ==> c.from_env(env),
            r matches Err(e) ==> scylla_err_matches(env, e),
    {
        let keyspace = match ServerConfig::get_str(env, "SCYLLA_KEYSPACE") {
            Ok(ks) => ks,
            Err(e) => {
                return Err(e);
            },
        };
        if keyspace.as_str().is_empty() {
            return Err(EnvParseError::KeyIsEmpty("SCYLLA_KEYSPACE".to_owned()));
        }
        let uri = match ServerConfig::get_str(env, "SCYLLA_URI") {
            Ok(v) => v,
            Err(_) => String::new(),
        };
        let user = match ServerConfig::get_str(env, "SCYLLA_USER") {
            Ok(v) => v,
            Err(_) => String::new(),
        };
        let password = match ServerConfig::get_str(env, "SCYLLA_PASSWORD") {
            Ok(v) => v,
            Err(_) => String::new(),
        };
        Ok(ScyllaConfig { uri, user, password, keyspace })
    }

    /// Whether credentials were configured: both a user and a password.
    pub fn had_auth(&self) -> (r: bool)
        ensures
            r == (self.user@.len() > 0 && self.password@.len() > 0),
    {
        !self.user.as_str().is_empty() && !self.password.as_str().is_empty()
    }
}

} // verus!
