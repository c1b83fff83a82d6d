//! The values that a configuration falls back on, and the fixed values of the
//! gateway.

use vstd::prelude::*;

verus! {

/// Default port number for the server.
pub const DEFAULT_PORT: u16 = 8080;

/// Default network address to bind to.
pub const DEFAULT_BIND_ADDR: &'static str = "127.0.0.1";

/// Default logging filter.
pub const DEFAULT_LOG_FILTER: &'static str = "rustygate=debug,tower_http=debug";

/// Default capacity of the relay channel, in events.
pub const SSE_CHANNEL_CAPACITY: usize = 100;

/// Default interval between keepalive frames, in seconds.
pub const SSE_KEEPALIVE_INTERVAL: u64 = 15;

/// Default size hint for the reassembly buffer, in bytes.
pub const SSE_BUFFER_CAPACITY: usize = 1024;

/// Default refill rate of the token bucket, in credits per interval.
pub const DEFAULT_RATE_LIMIT: usize = 1;

/// Default capacity of the token bucket, in credits.
pub const DEFAULT_RATE_LIMIT_BURST: usize = 5;

/// Default admission timeout, in seconds.
pub const DEFAULT_RATE_LIMIT_TIMEOUT: u64 = 30;

/// The refill interval of the token bucket, in milliseconds.
pub const REFILL_INTERVAL_MS: u64 = 1000;

/// The credits that one request costs.
pub const PERMITS_PER_REQUEST: usize = 1;

/// The text of a keepalive frame.
pub const KEEPALIVE_TEXT: &'static str = "keep-alive";

/// Where the upstream API stands; the path of a request follows.
pub const UPSTREAM_BASE: &'static str = "https://api.openai.com/v1/";

/// What a content type holds when the response is an event stream.
pub const EVENT_STREAM: &'static str = "text/event-stream";

/// The content type of what is forwarded and of what is passed through.
pub const JSON: &'static str = "application/json";

/// Status of a passed-through response whose upstream status is no status.
pub const STATUS_OK: u16 = 200;

/// Status for a request whose body could not be read.
pub const STATUS_BAD_REQUEST: u16 = 400;

/// Status for a request that got no credit in time.
pub const STATUS_TOO_MANY_REQUESTS: u16 = 429;

/// Status for a step of a request that was reported out of turn.
pub const STATUS_INTERNAL_SERVER_ERROR: u16 = 500;

/// Status for a request that the upstream did not answer.
pub const STATUS_BAD_GATEWAY: u16 = 502;

} // verus!
