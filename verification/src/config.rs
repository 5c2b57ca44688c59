//! Shared config types: storage parameters, the storage and startup errors,
//! and the storage limits.
use vstd::prelude::*;

verus! {

/// Longest single stored config value, in bytes (scratch buffers on the storage path).
pub const MAX_VALUE_SIZE: usize = 128;

/// Reserved storage key name of the format magic value.
pub const MAGIC_KEY: &'static str = "__magic__";

/// Reserved storage key name of the format version.
pub const FORMAT_VERSION_KEY: &'static str = "__format_version__";

/// Default format magic value of a config struct.
pub const DEFAULT_STORAGE_MAGIC: u32 = 0x4255_aa42;

/// Default format version of a config struct.
pub const DEFAULT_STORAGE_VERSION: u32 = 1;

/// Parameters for config storage mount/format. Only the values are
/// configurable; key IDs are fixed.
#[derive(Clone, Copy, Debug)]
pub struct ConfigStorageParams {
    /// Magic value stored at the magic key (format identifier).
    pub magic: u32,
    /// Format version stored at the format version key.
    pub format_version: u32,
}

/// Errors of config storage and of the generated config API.
#[derive(Debug)]
pub enum ConfigError {
    /// The storage backend failed.
    Backend,
    /// A value does not fit the scratch buffer; the text says how many bytes it needs.
    BufferTooSmall(String),
    /// Stored or submitted data could not be decoded.
    InvalidData,
    /// Stored text is not UTF-8.
    Utf8,
}

/// Unified error type for initialization and portal startup.
#[derive(Debug)]
pub enum Error {
    /// Flash mount, config load, serialization, or partition lookup failed.
    Config(ConfigError),
    /// Failed to spawn the DHCP server task.
    SpawnDhcp,
    /// Failed to spawn the DNS server task.
    SpawnDns,
    /// Radio initialization, or spawning one of the WiFi tasks, failed.
    WifiInit,
    /// Failed to spawn an HTTP worker task.
    SpawnHttpWorker,
}

impl From<ConfigError> for Error {
    fn from(e: ConfigError) -> (r: Self) {
        Error::Config(e)
    }
}

impl vstd::std_specs::convert::FromSpecImpl<ConfigError> for Error {
    open spec fn obeys_from_spec() -> bool {
        true
    }

    open spec fn from_spec(v: ConfigError) -> Self {
        Error::Config(v)
    }
}

} // verus!
