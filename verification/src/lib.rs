//! Hardware-backed key handling, tamper-evident files and protected memory.

pub mod auth;
pub mod capabilities;
pub mod config;
pub mod crypto;
pub mod dpapi_encrypt;
pub mod dpapi_store;
pub mod encryption;
pub mod error;
pub mod factory;
pub mod integrity;
pub mod memory;
pub mod password_gate;
pub mod plist;
pub mod secret;
pub mod signing;
pub mod text;
pub mod types;
