//! Read-only adapter logic for a desktop monitor of a local Codex client.

pub mod text;
pub mod paths;
pub mod time;
pub mod candidate;
pub mod status;
pub mod snapshot;
pub mod diagnostics;
pub mod json;
pub mod rollout;
pub mod order;
pub mod discovery;
pub mod sqlite;
pub mod auth;
pub mod pattern;
pub mod recon;
pub mod mapping;
pub mod provider;
