//! The settings of a node and of the cluster engine.
//!
//! Reading files and the environment is the caller's work; what counts as
//! usable settings is decided here.

use vstd::prelude::*;
use vstd::string::StringExecFns;

verus! {

/// The environment whose settings are read where none is named.
pub const DEFAULT_ENVIRONMENT: &'static str = "development";

/// The settings of a node.
#[derive(Debug, PartialEq, Eq)]
pub struct Settings {
    pub amqp_addr: String,
    pub jwt_secret_key: String,
    pub database_url: String,
}

/// The setting that is missing.
#[derive(Debug, Clone, Copy, PartialEq, Eq, Structural)]
pub enum ConfigError {
    MissingAmqpAddr,
    MissingJwtSecretKey,
    MissingDatabaseUrl,
}

/// The timing and thresholds of the cluster engine. Times are in milliseconds.
#[derive(Debug, Clone, Copy, PartialEq, Eq, Structural)]
pub struct ClusterConfig {
    pub election_interval: u64,
    pub heartbeat_interval: u64,
    pub unhealthy_threshold: u32,
    pub proposal_timeout: u64,
}

/// The verdict on three values offered as settings: the first of them
/// that is empty is missing.
pub open spec fn checked(
    amqp_addr: Seq<char>,
    jwt_secret_key: Seq<char>,
    database_url: Seq<char>,
) -> Option<ConfigError> {
    if amqp_addr.len() == 0 {
        Some(ConfigError::MissingAmqpAddr)
    } else if jwt_secret_key.len() == 0 {
        Some(ConfigError::MissingJwtSecretKey)
    } else if database_url.len() == 0 {
        Some(ConfigError::MissingDatabaseUrl)
    } else {
        None
    }
}

/// The name of the settings file of environment `run_env`.
pub open spec fn environment_file(run_env: Option<Seq<char>>) -> Seq<char> {
    "config/"@ + match run_env {
        Some(name) => name,
        None => DEFAULT_ENVIRONMENT@,
    }
}

impl Settings {
    /// The settings made of the three values, none of which may be empty.
    pub fn new(amqp_addr: String, jwt_secret_key: String, database_url: String) -> (r: Result<
        Settings,
        ConfigError,
    >)
        ensures
            match checked(amqp_addr@, jwt_secret_key@, database_url@) {
                Some(e) => r == Err::<Settings, ConfigError>(e),
                None => r == Ok::<Settings, ConfigError>(
                    Settings { amqp_addr, jwt_secret_key, database_url },
                ),
            },
    {
        if amqp_addr.as_str().is_empty() {
            Err(ConfigError::MissingAmqpAddr)
        } else if jwt_secret_key.as_str().is_empty() {
            Err(ConfigError::MissingJwtSecretKey)
        } else if database_url.as_str().is_empty() {
            Err(ConfigError::MissingDatabaseUrl)
        } else {
            Ok(Settings { amqp_addr, jwt_secret_key, database_url })
        }
    }

    /// Whether no setting is empty.
    pub fn is_complete(&self) -> (b: bool)
        ensures
            b == (checked(self.amqp_addr@, self.jwt_secret_key@, self.database_url@) is None),
    {
        !self.amqp_addr.as_str().is_empty() && !self.jwt_secret_key.as_str().is_empty()
            && !self.database_url.as_str().is_empty()
    }
}

/// The name of the settings file of the environment named by `run_env`,
/// or of the default environment where none is named.
pub fn config_file_for(run_env: Option<&str>) -> (name: String)
    ensures
        name@ == environment_file(
            match run_env {
                Some(e) => Some(e@),
                None => None,
            },
        ),
{
    let mut name = String::from_str("config/");
    match run_env {
        Some(e) => {
            name.append(e);
        },
        None => {
            name.append(DEFAULT_ENVIRONMENT);
        },
    }
    name
}

impl ClusterConfig {
    /// The configuration used where nothing is configured: an election
    /// tick every five seconds, a heartbeat every second, suspicion after
    /// three missed heartbeats, and thirty seconds for a proposal.
    pub fn fallback() -> (c: Self)
        ensures
            c == (ClusterConfig {
                election_interval: 5_000,
                heartbeat_interval: 1_000,
                unhealthy_threshold: 3,
                proposal_timeout: 30_000,
            }),
    {
        ClusterConfig {
            election_interval: 5_000,
            heartbeat_interval: 1_000,
            unhealthy_threshold: 3,
            proposal_timeout: 30_000,
        }
    }
}

} // verus!
