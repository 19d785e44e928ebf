//! Application configuration defaults.

pub mod app_config;
