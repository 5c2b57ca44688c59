//! Code-generation logic of the `WifiCaddyConfig` derive: what the generated
//! config page, keys, change sets and crate paths are, from the parsed struct.
pub mod api;
pub mod attrs;
pub mod form;
pub mod group;
pub mod page;
pub mod paths;
pub mod store;
