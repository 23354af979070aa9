//! The server configuration: one explicit value constructed at startup and
//! passed into the connection manager, the sessions and the dispatcher.

use vstd::prelude::*;
use vstd::string::StringExecFns;

verus! {

pub struct ServerConfig {
    /// The address to bind, in dotted-quad text form.
    pub host: String,
    pub port: u16,
}

pub struct DatabaseConfig {
    pub host: String,
    pub port: u16,
    pub user: String,
    pub password: String,
    pub name: String,
    pub ssl: bool,
}

pub struct LimitsConfig {
    /// Maximum number of concurrent sessions.
    pub max_devices: u32,
    /// Maximum number of settings one request may name.
    pub max_settings: u32,
}

pub struct RateLimitConfig {
    /// Window length, in seconds.
    pub time_frame: u64,
    /// Maximum requests per window within one session.
    pub max_requests: usize,
    /// Maximum accepted connections per window, server-wide.
    pub max_connections: usize,
}

pub struct Config {
    pub server: ServerConfig,
    pub database: DatabaseConfig,
    pub limits: LimitsConfig,
    pub rate_limits: RateLimitConfig,
    /// Whether unauthorized devices are disconnected without a reject
    /// reply, to avoid tipping off scanners.
    pub kick_unauthorized_devices: bool,
}

impl Default for ServerConfig {
    fn default() -> (r: Self)
        ensures
            r.host@ == "0.0.0.0"@,
            r.port == 55300,
    {
        ServerConfig { host: String::from_str("0.0.0.0"), port: 55300 }
    }
}

impl Default for DatabaseConfig {
    fn default() -> (r: Self)
        ensures
            r.host@ == "192.168.0.12"@,
            r.port == 5432,
            r.user@ == "root"@,
            r.password@ == "root"@,
            r.name@ == "pixelweather"@,
            !r.ssl,
    {
        DatabaseConfig {
            host: String::from_str("192.168.0.12"),
            port: 5432,
            user: String::from_str("root"),
            password: String::from_str("root"),
            name: String::from_str("pixelweather"),
            ssl: false,
        }
    }
}

impl Default for LimitsConfig {
    fn default() -> (r: Self)
        ensures
            r == (LimitsConfig { max_devices: 10, max_settings: 10 }),
    {
        LimitsConfig { max_devices: 10, max_settings: 10 }
    }
}

impl Default for RateLimitConfig {
    fn default() -> (r: Self)
        ensures
            r == (RateLimitConfig { time_frame: 1, max_requests: 4, max_connections: 4 }),
    {
        RateLimitConfig { time_frame: 1, max_requests: 4, max_connections: 4 }
    }
}

impl Default for Config {
    fn default() -> (r: Self)
        ensures
            r.server.host@ == "0.0.0.0"@,
            r.server.port == 55300,
            r.limits == (LimitsConfig { max_devices: 10, max_settings: 10 }),
            r.rate_limits == (RateLimitConfig { time_frame: 1, max_requests: 4, max_connections: 4 }),
            !r.kick_unauthorized_devices,
    {
        Config {
            server: Default::default(),
            database: Default::default(),
            limits: Default::default(),
            rate_limits: Default::default(),
            kick_unauthorized_devices: false,
        }
    }
}

} // verus!
