use std::collections::HashMap;
use vstd::prelude::*;

verus! {

// Configuration as the caller loads it: the remote project's coordinates,
// where the API token comes from, and the team rosters. Reading the
// configuration file and the environment is the caller's business; the
// library only carries the values.

/// Where the private API token comes from.
#[derive(Debug, PartialEq)]
pub enum ApiToken {
    /// The token is read from the named environment variable.
    EnvVar { name: String },
}

impl ApiToken {
    /// The name of the environment variable holding the token.
    pub fn env_var_name(&self) -> (r: &String)
        ensures
            r@ == self->name@,
    {
        match self {
            ApiToken::EnvVar { name } => name,
        }
    }
}

/// The configuration of one invocation.
#[derive(Debug, PartialEq)]
pub struct Config {
    pub base_url: String,
    pub project_id: u64,
    pub api_token: ApiToken,
    pub teams: HashMap<String, Vec<String>>,
}

} // verus!
