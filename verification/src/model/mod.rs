pub mod command;
pub mod device;
pub mod environment;
pub mod operation;
pub mod profile;
pub mod system;
