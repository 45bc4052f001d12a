//! Client library for the Tianyan quantum cloud platform: the platform's
//! rules, record formats and decisions, with their contracts.

pub mod auth;
pub mod client;
pub mod config;
pub mod device;
pub mod device_config;
pub mod error;
pub mod ffi;
pub mod results;
pub mod task;
pub mod text;
