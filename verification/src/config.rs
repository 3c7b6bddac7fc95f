//! Delivery configuration.

use vstd::prelude::*;

verus! {

/// Where events are delivered to, and how insistently.
#[derive(Clone, Debug)]
pub struct TcpConfig {
    /// Host to connect to.
    pub host: String,
    /// Port to connect to.
    pub port: u16,
    /// Quiet period after an exhausted retry budget, in milliseconds.
    pub retry_cooldown_ms: u64,
    /// Connection attempts made for one message before giving up.
    pub max_retries: u32,
}

impl Default for TcpConfig {
    fn default() -> (config: Self)
        ensures
            config.host@ == "127.0.0.1"@,
            config.port == 8112,
            config.retry_cooldown_ms == 5000,
            config.max_retries == 3,
    {
        TcpConfig {
            host: String::from_str("127.0.0.1"),
            port: 8112,
            retry_cooldown_ms: 5000,
            max_retries: 3,
        }
    }
}

} // verus!
