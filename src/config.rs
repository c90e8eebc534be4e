//! Service configuration values and their fallbacks.

use vstd::prelude::*;
use vstd::string::StringExecFns;

verus! {

/// Listening addresses of the two transports.
#[derive(Clone, Debug)]
pub struct ServerConfig {
    pub grpc_port: u16,
    pub rest_port: u16,
    pub host: String,
}

/// Connection settings of the two stores.
#[derive(Clone, Debug)]
pub struct DatabaseConfig {
    pub postgres_url: String,
    pub mongodb_url: String,
    pub max_connections: u32,
}

/// Log output settings.
#[derive(Clone, Debug)]
pub struct LoggingConfig {
    pub level: String,
    pub format: String,
}

/// A configured value, or the fallback when it is not set.
pub open spec fn or_fallback(value: Option<String>, fallback: Seq<char>) -> Seq<char> {
    match value {
        Some(v) => v@,
        None => fallback,
    }
}

fn value_or(value: Option<String>, fallback: &str) -> (r: String)
    ensures
        r@ == or_fallback(value, fallback@),
{
    match value {
        Some(v) => v,
        None => String::from_str(fallback),
    }
}

impl ServerConfig {
    /// gRPC on 50051 and REST on 8080, on all interfaces.
    pub fn standard() -> (r: Self)
        ensures
            r.grpc_port == 50051,
            r.rest_port == 8080,
            r.host@ == "0.0.0.0"@,
    {
        ServerConfig { grpc_port: 50051, rest_port: 8080, host: String::from_str("0.0.0.0") }
    }
}

impl DatabaseConfig {
    /// Store settings from the configured URLs, falling back to local stores.
    pub fn from_settings(postgres_url: Option<String>, mongodb_url: Option<String>) -> (r: Self)
        ensures
            r.postgres_url@ == or_fallback(postgres_url, "postgresql://localhost/myapp"@),
            r.mongodb_url@ == or_fallback(mongodb_url, "mongodb://localhost:27017"@),
            r.max_connections == 10,
    {
        DatabaseConfig {
            postgres_url: value_or(postgres_url, "postgresql://localhost/myapp"),
            mongodb_url: value_or(mongodb_url, "mongodb://localhost:27017"),
            max_connections: 10,
        }
    }
}

impl LoggingConfig {
    /// JSON logs at the configured level, `info` by default.
    pub fn from_settings(level: Option<String>) -> (r: Self)
        ensures
            r.level@ == or_fallback(level, "info"@),
            r.format@ == "json"@,
    {
        LoggingConfig { level: value_or(level, "info"), format: String::from_str("json") }
    }
}

} // verus!
