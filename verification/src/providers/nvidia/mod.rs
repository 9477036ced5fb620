//! NVIDIA drivers and the CUDA Toolkit.
pub mod compatibility;
pub mod gpu;
pub mod state;
pub mod runtime;
pub mod driver;
pub mod toolkit;
pub mod repository;
pub mod policy;
pub mod recipe;
pub mod install;
pub mod uninstall;
pub mod upgrade;
pub mod diagnostics;
