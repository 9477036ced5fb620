//! What the commands show.
pub mod output;
pub mod plan;
