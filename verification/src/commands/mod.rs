//! The decisions of each command, apart from what it reads and prints.
pub mod apply;
pub mod doctor;
pub mod install;
pub mod upgrade;
