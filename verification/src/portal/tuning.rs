//! HTTP server sizing (the build-time defaults).
use vstd::prelude::*;

verus! {

/// Per-connection TCP receive *and* transmit buffer size in bytes.
pub const TCP_BUF_SIZE: usize = 1024;
/// HTTP request buffer size per handler, in bytes.
pub const HTTP_BUF_SIZE: usize = 2048;
/// Keep-alive timeout of an idle connection, in milliseconds.
pub const KEEPALIVE_TIMEOUT_MS: u32 = 3000;
/// Requests served in parallel.
pub const HANDLER_TASKS: usize = 2;
/// Maximum number of request headers.
pub const HTTP_MAX_HEADERS: usize = 32;
/// IO timeout of an accepted connection, in milliseconds.
pub const IO_TIMEOUT_MS: u32 = 5000;
/// Connection capacity (acceptors); at least `HANDLER_TASKS`.
pub const ACCEPTOR_TASKS: usize = 4;
/// Milliseconds to wait before retrying the TCP bind on port 80.
pub const TCP_BIND_RETRY_DELAY_MS: u64 = 2000;
/// Buffer size for JSON config-group responses.
pub const CONFIG_GROUP_JSON_BUF_SIZE: usize = 384;

} // verus!
