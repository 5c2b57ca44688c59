//! Verified core of the wifi-caddy configuration portal.
pub mod config;
pub mod esp;
pub mod hash;
pub mod laws;
pub mod strs;
pub mod text;
pub mod portal;
pub mod style;
pub mod gen;
pub mod guarantees;
