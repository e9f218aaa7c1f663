//! The signing service's configuration file.
use vstd::prelude::*;

use crate::signer::{check_threshold, valid_threshold, ThresholdError};
use crate::sse::{AppConfig as SseAppConfig, SSEConfig};

verus! {

#[derive(Debug, Clone)]
pub struct SignServiceConfig {
    pub server: ServerConfig,
    pub logging: LoggingConfig,
    pub mpc: MpcConfig,
}

#[derive(Debug, Clone)]
pub struct ServerConfig {
    pub sse: SseServerConfig,
    pub participant: ParticipantServerConfig,
}

#[derive(Debug, Clone)]
pub struct SseServerConfig {
    pub host: String,
    pub port: u16,
    pub cors_origins: Vec<String>,
}

#[derive(Debug, Clone)]
pub struct ParticipantServerConfig {
    pub host: String,
    pub port: u16,
    pub index: u16,
}

#[derive(Debug, Clone)]
pub struct LoggingConfig {
    pub level: String,
    pub format: String,
}

#[derive(Debug, Clone)]
pub struct MpcConfig {
    pub threshold: u16,
    pub total_participants: u16,
    pub key_share_file: String,
}

impl SignServiceConfig {
    /// The room bus configuration: the bus listens where the service's bus is configured.
    pub fn to_sse_config(&self) -> (c: SseAppConfig)
        ensures
            c.sse.host@ == self.server.sse.host@,
            c.sse.port == self.server.sse.port,
    {
        SseAppConfig { sse: SSEConfig { host: self.server.sse.host.clone(), port: self.server.sse.port } }
    }

    /// Checks the threshold at startup.
    pub fn validate(&self) -> (r: Result<(), ThresholdError>)
        ensures
            r is Ok <==> valid_threshold(self.mpc.threshold, self.mpc.total_participants),
    {
        check_threshold(self.mpc.threshold, self.mpc.total_participants)
    }
}

/// The key share file: a non-empty override (from `SIGN_SERVICE_KEY_SHARE_FILE`)
/// wins over the configured path.
pub fn resolve_key_share_file(config_path: &str, override_path: Option<String>) -> (r: String)
    ensures
        r@ == match override_path {
            Some(p) => if p@.len() > 0 { p@ } else { config_path@ },
            None => config_path@,
        },
{
    match override_path {
        Some(p) => if p.unicode_len() > 0 { p } else { config_path.to_owned() },
        None => config_path.to_owned(),
    }
}

} // verus!
