//! Configuration from environment variables. Reading the process
//! environment is the composition root's job; it hands the library a plain
//! snapshot of key/value pairs, and the rules for extracting, defaulting and
//! validating each setting live here.

use vstd::prelude::*;

use crate::parse::{parse_u64, spec_parse_u64};
use crate::server_config::database::DatabaseConfig;
use crate::text::str_eq;

pub mod database;
pub mod manticore;
pub mod redis;
pub mod scylla;

verus! {

/// What looking `key` up in a pair list yields: the value of the latest
/// pair with that key.
pub open spec fn spec_lookup(pairs: Seq<(String, String)>, key: Seq<char>) -> Option<Seq<char>>
    decreases pairs.len(),
{
    if pairs.len() == 0 {
        None
    } else if pairs.last().0@ == key {
        Some(pairs.last().1@)
    } else {
        spec_lookup(pairs.drop_last(), key)
    }
}

/// A snapshot of environment variables: key/value pairs, a later pair
/// overriding an earlier one with the same key.
pub struct EnvVars {
    pairs: Vec<(String, String)>,
}

impl EnvVars {
    /// The value under `key`, if any.
    pub closed spec fn lookup(&self, key: Seq<char>) -> Option<Seq<char>> {
        spec_lookup(self.pairs@, key)
    }

    /// An empty snapshot.
    pub fn new() -> (r: Self)
        ensures
            forall|k: Seq<char>| r.lookup(k) is None,
    {
        EnvVars { pairs: Vec::new() }
    }

    /// Record `value` under `key`, overriding any earlier value.
    pub fn push(&mut self, key: String, value: String)
        ensures
            forall|k: Seq<char>|
                final(self).lookup(k) == if k == key@ {
                    Some(value@)
                } else {
                    old(self).lookup(k)
                },
    {
        let ghost before = self.pairs@;
        self.pairs.push((key, value));
        proof {
            assert(self.pairs@.drop_last() =~= before);
        }
    }

    /// Look `key` up.
    pub fn get(&self, key: &str) -> (r: Option<String>)
        ensures
            match self.lookup(key@) {
                Some(v) => r matches Some(s) && s@ == v,
                None => r is None,
            },
    {
        let mut i = self.pairs.len();
        proof {
            assert(self.pairs@.take(i as int) =~= self.pairs@);
        }
        while i > 0
            invariant
                i <= self.pairs.len(),
                spec_lookup(self.pairs@, key@) == spec_lookup(self.pairs@.take(i as int), key@),
            decreases i,
        {
            i = i - 1;
            proof {
                assert(self.pairs@.take(i + 1 as int).drop_last() =~= self.pairs@.take(i as int));
                assert(self.pairs@.take(i + 1 as int).last() == self.pairs@[i as int]);
            }
            if str_eq(self.pairs[i].0.as_str(), key) {
                return Some(self.pairs[i].1.clone());
            }
        }
        proof {
            assert(self.pairs@.take(0) =~= Seq::empty());
        }
        None
    }
}

/// A setting could not be read from the environment.
#[derive(Clone, Debug, PartialEq)]
pub enum EnvParseError {
    /// The key is absent.
    KeyNotFound(String),
    /// The key is present but its value is empty where one is required.
    KeyIsEmpty(String),
    /// The value under the key is not a number of the required range;
    /// carries the key and what caused the rejection.
    InvalidNumber(String, String),
}

/// The value under `key`, or the empty string where the key is absent.
pub open spec fn or_empty(v: Option<Seq<char>>) -> Seq<char> {
    match v {
        Some(s) => s,
        None => Seq::empty(),
    }
}

/// Whether the environment holds a number under `key` that fits `bound`.
pub open spec fn spec_num_ok(env: &EnvVars, key: Seq<char>, bound: u64) -> bool {
    match env.lookup(key) {
        Some(v) => match spec_parse_u64(v) {
            Some(p) => p <= bound,
            None => false,
        },
        None => false,
    }
}

/// The number the environment holds under `key`, where [`spec_num_ok`].
pub open spec fn spec_num(env: &EnvVars, key: Seq<char>) -> u64 {
    spec_parse_u64(env.lookup(key)->0)->0
}

/// Process-wide settings.
#[derive(Clone)]
pub struct ServerConfig {
    pub is_production: bool,
    pub http_port: u16,
    pub num_worker: usize,
    pub database: DatabaseConfig,
}

impl ServerConfig {
    /// The string under `key`; absent keys are an error.
    pub fn get_str(env: &EnvVars, key: &str) -> (r: Result<String, EnvParseError>)
        ensures
            match env.lookup(key@) {
                Some(v) => r matches Ok(s) && s@ == v,
                None => r matches Err(EnvParseError::KeyNotFound(k)) && k@ == key@,
            },
    {
        match env.get(key) {
            Some(val) => Ok(val),
            None => Err(EnvParseError::KeyNotFound(key.to_owned())),
        }
    }

    /// The number under `key`: an unsigned decimal that fits 64 bits.
    /// Absent keys and unparsable values are errors.
    pub fn get_num(env: &EnvVars, key: &str) -> (r: Result<u64, EnvParseError>)
        ensures
            match env.lookup(key@) {
                Some(v) => match spec_parse_u64(v) {
                    Some(p) => r == Ok::<u64, EnvParseError>(p),
                    None => r matches Err(EnvParseError::InvalidNumber(k, m)) && k@ == key@ && m@
                        == "not an unsigned decimal integer"@,
                },
                None => r matches Err(EnvParseError::KeyNotFound(k)) && k@ == key@,
            },
    {
        let val = match Self::get_str(env, key) {
            Err(e) => {
                return Err(e);
            },
            Ok(val) => val,
        };
        match parse_u64(val.as_str()) {
            Some(num) => Ok(num),
            None => Err(
                EnvParseError::InvalidNumber(
                    key.to_owned(),
                    "not an unsigned decimal integer".to_owned(),
                ),
            ),
        }
    }

    /// Assemble the process settings from an environment snapshot. The
    /// production flag is on exactly when `RUST_ENV` is `production`; the
    /// port and worker count fall back to defaults when absent or
    /// malformed; the backend settings are required as
    /// [`DatabaseConfig::load`] states.
    pub fn load(env: &EnvVars) -> (r: Result<ServerConfig, EnvParseError>)
        ensures
            r is Ok <==> crate::server_config::database::database_load_ok(env),
            r matches Ok(c) ==> {
                &&& c.is_production == (env.lookup("RUST_ENV"@) matches Some(v) && v
                    == "production"@)
                &&& c.http_port == if spec_num_ok(env, "HTTP_PORT"@, 0xFFFF) {
                    spec_num(env, "HTTP_PORT"@) as u16
                } else {
                    8080u16
                }
                &&& c.num_worker == if spec_num_ok(env, "NUM_WORKER"@, usize::MAX as u64) {
                    spec_num(env, "NUM_WORKER"@) as usize
                } else {
                    2usize
                }
                &&& c.database.scylla.from_env(env)
                &&& c.database.manticore.from_env(env)
                &&& c.database.redis.from_env(env)
            },
            r matches Err(e) ==> crate::server_config::database::database_err_matches(env, e),
    {
        let is_production = match Self::get_str(env, "RUST_ENV") {
            Ok(v) => str_eq(v.as_str(), "production"),
            Err(_) => false,
        };
        let http_port: u16 = match Self::get_num(env, "HTTP_PORT") {
            Ok(p) => if p <= 0xFFFF {
                p as u16
            } else {
                8080
            },
            Err(_) => 8080,
        };
        let num_worker: usize = match Self::get_num(env, "NUM_WORKER") {
            Ok(p) => if p <= usize::MAX as u64 {
                p as usize
            } else {
                2
            },
            Err(_) => 2,
        };
        let database = match DatabaseConfig::load(env) {
            Ok(d) => d,
            Err(e) => {
                return Err(e);
            },
        };
        Ok(ServerConfig { is_production, http_port, num_worker, database })
    }
}

} // verus!
