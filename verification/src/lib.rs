//! An OpenID AuthZEN policy decision point backed by Cedar policies.

pub mod authzen;
pub mod cedar;
pub mod config;
pub mod convert;
pub mod error;
pub mod handlers;
pub mod health;
pub mod json;
pub mod laws;
pub mod meaning;
pub mod policy;
pub mod state;
pub mod telemetry;
pub mod text;
