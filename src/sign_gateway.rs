//! The gateway's configuration file, and how it fails.
use vstd::prelude::*;

use crate::sse::{AppConfig as SseAppConfig, SSEConfig};

verus! {

#[derive(Debug, Clone)]
pub struct SignGatewayConfig {
    pub server: ServerConfig,
    pub logging: LoggingConfig,
}

#[derive(Debug, Clone)]
pub struct ServerConfig {
    pub host: String,
    pub port: u16,
    pub cors_origins: Vec<String>,
}

#[derive(Debug, Clone)]
pub struct LoggingConfig {
    pub level: String,
    pub format: String,
}

impl SignGatewayConfig {
    /// The room bus configuration: the bus listens where the gateway does.
    pub fn to_sse_config(&self) -> (c: SseAppConfig)
        ensures
            c.sse.host@ == self.server.host@,
            c.sse.port == self.server.port,
    {
        SseAppConfig { sse: SSEConfig { host: self.server.host.clone(), port: self.server.port } }
    }
}

/// How the gateway fails: with the message of the underlying failure.
#[derive(Debug, Clone, PartialEq, Eq)]
pub enum GatewayError {
    Upstream(String),
}

} // verus!
