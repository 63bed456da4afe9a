//! Shared-display control: which computer drives a display, how paired
//! computers agree on it, and what the user is told.

pub mod agent;
pub mod auth;
pub mod clock;
pub mod connection;
pub mod dashboard;
pub mod diagnostics_upload;
pub mod discovery;
pub mod domain;
pub mod edid;
pub mod entries;
pub mod error;
pub mod host_alias;
pub mod host_order;
pub mod input_label;
pub mod inventory;
pub mod json;
pub mod laws;
pub mod lists;
pub mod locale;
pub mod macos_connection;
pub mod messages;
pub mod migration;
pub mod monitor_identity;
pub mod network;
pub mod notes;
pub mod port;
pub mod routes;
pub mod service;
pub mod settings;
pub mod sharing;
pub mod switcher;
pub mod switching;
pub mod text;
pub mod tray;
pub mod validation;
pub mod windows_connection;
