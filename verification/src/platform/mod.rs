//! What the library knows of the machine it manages.
pub mod package_manager;
pub mod command;
pub mod os;
