//! GPU vendor integrations.
pub mod nvidia;
