//! Experiment-level configuration.

use vstd::prelude::*;

use crate::field::clone_string;
use crate::json::{clone_json, json_of, parse_json};

verus! {

/// Errors of configuration building.
#[derive(Debug, PartialEq, Eq)]
pub enum ConfigError {
    Unique(String),
    /// The globals source was not valid JSON.
    FromSerde(String),
}

/// Relies on `uuid::Uuid::new_v4` and its hyphenated formatting: a fresh
/// random identifier rendered in the documented 36-character form.
#[verifier::external_body]
pub(crate) fn new_v4_id() -> (r: String)
    ensures
        r@.len() == 36,
{
    uuid::Uuid::new_v4().hyphenated().to_string()
}

/// Experiment-level configuration: the run's own identifier, the parsed
/// base globals, and the worker budget.
#[derive(Debug)]
pub struct Config {
    pub run_id: String,
    pub base_globals: serde_json::Value,
    pub max_num_workers: usize,
}

impl Config {
    /// Build the configuration for one experiment run: draw a fresh run id
    /// (for differentiation when several runs share a system) and parse the
    /// project's globals source. Fails exactly when the globals source is
    /// not valid JSON.
    pub fn new(globals_src: &str, max_num_workers: usize) -> (r: Result<Config, ConfigError>)
        ensures
            r is Ok <==> json_of(globals_src@) is Some,
            r matches Ok(c) ==> {
                &&& c.run_id@.len() == 36
                &&& Some(c.base_globals) == json_of(globals_src@)
                &&& c.max_num_workers == max_num_workers
            },
            r matches Err(e) ==> e is FromSerde,
    {
        let run_id = new_v4_id();
        let base_globals = match parse_json(globals_src) {
            Ok(v) => v,
            Err(e) => {
                return Err(ConfigError::FromSerde(e));
            },
        };
        Ok(Config { run_id, base_globals, max_num_workers })
    }

    /// A copy of this configuration carrying only the base parts, for
    /// components that must not see the extended experiment run.
    pub fn to_base(&self) -> (r: Result<Config, ConfigError>)
        ensures
            r is Ok,
            r matches Ok(c) ==> {
                &&& c.run_id@ == self.run_id@
                &&& c.base_globals == self.base_globals
                &&& c.max_num_workers == self.max_num_workers
            },
    {
        Ok(
            Config {
                run_id: clone_string(&self.run_id),
                base_globals: clone_json(&self.base_globals),
                max_num_workers: self.max_num_workers,
            },
        )
    }
}

} // verus!
