//! Core of an endpoint process-control agent: rule matching, policy evaluation,
//! kill governance, the audit log with its integrity tags, and the scan driver.

pub mod config;
pub mod digest;
pub mod format;
pub mod glob;
pub mod hasher;
pub mod integrity;
pub mod killer;
pub mod logger;
pub mod pattern;
pub mod policy;
pub mod process;
pub mod rotation;
pub mod scanner;
pub mod store;
pub mod text;
