pub mod text;
pub mod model;
pub mod config;
pub mod present;
pub mod shell;
pub mod cli;
pub mod flow;
pub mod permissions;
pub mod laws;
