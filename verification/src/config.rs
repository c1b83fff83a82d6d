//! The configuration of the gateway, read from what the environment holds.

use crate::constants::{
    DEFAULT_BIND_ADDR, DEFAULT_PORT, DEFAULT_RATE_LIMIT, DEFAULT_RATE_LIMIT_BURST,
    DEFAULT_RATE_LIMIT_TIMEOUT, REFILL_INTERVAL_MS, SSE_BUFFER_CAPACITY, SSE_CHANNEL_CAPACITY,
    SSE_KEEPALIVE_INTERVAL,
};
use crate::limiter::{
    build_limiter, capped, limiter_interval_ms, limiter_is_fair, limiter_max, limiter_refill,
};
use crate::text::{decimal_text, digits_of};
use crate::utils::{get_env_or_default, setting};
use leaky_bucket::RateLimiter;
use vstd::prelude::*;
use vstd::string::*;

verus! {

/// What the environment holds for the variable `key`: the value of the first
/// of the pairs `env` whose name is `key`.
pub open spec fn lookup(env: Seq<(String, String)>, key: Seq<char>) -> Option<Seq<char>>
    decreases env.len(),
{
    if env.len() == 0 {
        None
    } else if env.first().0@ == key {
        Some(env.first().1@)
    } else {
        lookup(env.drop_first(), key)
    }
}

/// Looks the variable `key` up in `env`.
pub fn find_var<'a>(env: &'a Vec<(String, String)>, key: &str) -> (value: Option<&'a str>)
    ensures
        match value {
            Some(text) => lookup(env@, key@) == Some(text@),
            None => lookup(env@, key@) is None,
        },
{
    let name = key.to_owned();
    let mut i: usize = 0;
    proof {
        assert(env@.skip(0) =~= env@);
    }
    while i < env.len()
        invariant
            i <= env.len(),
            name@ == key@,
            lookup(env@, key@) == lookup(env@.skip(i as int), key@),
        decreases env.len() - i,
    {
        proof {
            assert(env@.skip(i as int).drop_first() =~= env@.skip(i + 1));
        }
        if env[i].0 == name {
            return Some(env[i].1.as_str());
        }
        i += 1;
    }
    None
}

/// Why no configuration could be made.
#[derive(Debug, Clone, Copy, PartialEq, Eq, Structural)]
pub enum ConfigError {
    /// The environment holds no `OPENAI_API_KEY`.
    MissingApiKey,
}

/// The configuration of the gateway.
#[derive(Clone)]
pub struct Config {
    /// Port number the server listens on.
    pub port: u16,
    /// Network address the server binds to.
    pub bind_addr: String,
    /// The credential that is attached to every forwarded request.
    pub openai_api_key: String,
    /// Capacity of the relay channel, in events.
    pub sse_channel_capacity: usize,
    /// Interval between keepalive frames, in seconds.
    pub sse_keepalive_interval: u64,
    /// Size hint for the reassembly buffer, in bytes.
    pub sse_buffer_capacity: usize,
    /// Refill rate of the token bucket, in credits per second.
    pub rate_limit: usize,
    /// Capacity of the token bucket, in credits.
    pub rate_limit_burst: usize,
    /// Admission timeout, in seconds.
    pub rate_limit_timeout: u64,
}

impl Config {
    /// Whether this configuration is the one that the environment `env` gives:
    /// each number is the setting of its variable, the bind address is the
    /// value of its variable as it stands, and the key is the value of
    /// `OPENAI_API_KEY`.
    pub open spec fn reads(&self, env: Seq<(String, String)>) -> bool {
        &&& self.port == setting(lookup(env, "PORT"@), DEFAULT_PORT as u64, u16::MAX as u64)
        &&& self.bind_addr@ == match lookup(env, "BIND_ADDRESS"@) {
            Some(text) => text,
            None => DEFAULT_BIND_ADDR@,
        }
        &&& lookup(env, "OPENAI_API_KEY"@) == Some(self.openai_api_key@)
        &&& self.sse_channel_capacity == setting(
            lookup(env, "SSE_CHANNEL_CAPACITY"@),
            SSE_CHANNEL_CAPACITY as u64,
            usize::MAX as u64,
        )
        &&& self.sse_keepalive_interval == setting(
            lookup(env, "SSE_KEEPALIVE_INTERVAL"@),
            SSE_KEEPALIVE_INTERVAL,
            u64::MAX,
        )
        &&& self.sse_buffer_capacity == setting(
            lookup(env, "SSE_BUFFER_CAPACITY"@),
            SSE_BUFFER_CAPACITY as u64,
            usize::MAX as u64,
        )
        &&& self.rate_limit == setting(
            lookup(env, "RATE_LIMIT"@),
            DEFAULT_RATE_LIMIT as u64,
            usize::MAX as u64,
        )
        &&& self.rate_limit_burst == setting(
            lookup(env, "RATE_LIMIT_BURST"@),
            DEFAULT_RATE_LIMIT_BURST as u64,
            usize::MAX as u64,
        )
        &&& self.rate_limit_timeout == setting(
            lookup(env, "RATE_LIMIT_TIMEOUT"@),
            DEFAULT_RATE_LIMIT_TIMEOUT,
            u64::MAX,
        )
    }

    /// Makes the configuration from the pairs of name and value that the
    /// environment holds. A setting that is missing, or that holds no number
    /// of its kind, falls back on its default. Only the key has none: without
    /// it there is no configuration.
    pub fn from_env(env: &Vec<(String, String)>) -> (result: Result<Config, ConfigError>)
        ensures
            match result {
                Ok(config) => config.reads(env@),
                Err(e) => e == ConfigError::MissingApiKey && lookup(env@, "OPENAI_API_KEY"@)
                    is None,
            },
    {
        let port = get_env_or_default(find_var(env, "PORT"), DEFAULT_PORT as u64, u16::MAX as u64);
        let bind_addr = match find_var(env, "BIND_ADDRESS") {
            Some(text) => text.to_owned(),
            None => DEFAULT_BIND_ADDR.to_owned(),
        };
        let sse_channel_capacity = get_env_or_default(
            find_var(env, "SSE_CHANNEL_CAPACITY"),
            SSE_CHANNEL_CAPACITY as u64,
            usize::MAX as u64,
        );
        let sse_keepalive_interval = get_env_or_default(
            find_var(env, "SSE_KEEPALIVE_INTERVAL"),
            SSE_KEEPALIVE_INTERVAL,
            u64::MAX,
        );
        let sse_buffer_capacity = get_env_or_default(
            find_var(env, "SSE_BUFFER_CAPACITY"),
            SSE_BUFFER_CAPACITY as u64,
            usize::MAX as u64,
        );
        let rate_limit = get_env_or_default(
            find_var(env, "RATE_LIMIT"),
            DEFAULT_RATE_LIMIT as u64,
            usize::MAX as u64,
        );
        let rate_limit_burst = get_env_or_default(
            find_var(env, "RATE_LIMIT_BURST"),
            DEFAULT_RATE_LIMIT_BURST as u64,
            usize::MAX as u64,
        );
        let rate_limit_timeout = get_env_or_default(
            find_var(env, "RATE_LIMIT_TIMEOUT"),
            DEFAULT_RATE_LIMIT_TIMEOUT,
            u64::MAX,
        );
        let openai_api_key = match find_var(env, "OPENAI_API_KEY") {
            Some(text) => text.to_owned(),
            None => {
                return Err(ConfigError::MissingApiKey);
            },
        };
        Ok(
            Config {
                port: port as u16,
                bind_addr,
                openai_api_key,
                sse_channel_capacity: sse_channel_capacity as usize,
                sse_keepalive_interval,
                sse_buffer_capacity: sse_buffer_capacity as usize,
                rate_limit: rate_limit as usize,
                rate_limit_burst: rate_limit_burst as usize,
                rate_limit_timeout,
            },
        )
    }

    /// The address to listen on, as text: the bind address, a colon, and the
    /// port in decimal.
    pub fn socket_addr(&self) -> (addr: String)
        ensures
            addr@ == self.bind_addr@ + seq![':'] + digits_of(self.port as nat),
    {
        let mut addr = self.bind_addr.clone();
        proof {
            reveal_strlit(":");
        }
        addr.append(":");
        let port = decimal_text(self.port as u64);
        addr.append(port.as_str());
        addr
    }

    /// The token bucket of this configuration: it holds `rate_limit_burst`
    /// credits at most and is full at first, gains `rate_limit` credits every
    /// second, and serves those who wait in the order in which they came.
    /// `None` where `rate_limit` is zero: no such bucket can be made.
    pub fn rate_limiter(&self) -> (limiter: Option<RateLimiter>)
        ensures
            limiter is Some <==> self.rate_limit > 0,
            match limiter {
                Some(made) => {
                    &&& limiter_max(made) == capped(self.rate_limit_burst)
                    &&& limiter_refill(made) == capped(self.rate_limit)
                    &&& limiter_interval_ms(made) == REFILL_INTERVAL_MS
                    &&& limiter_is_fair(made)
                },
                None => true,
            },
    {
        if self.rate_limit > 0 {
            Some(
                build_limiter(
                    self.rate_limit_burst,
                    self.rate_limit,
                    REFILL_INTERVAL_MS,
                    true,
                    self.rate_limit_burst,
                ),
            )
        } else {
            None
        }
    }
}

} // verus!
