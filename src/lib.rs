pub mod args;
pub mod config;
pub mod guard;
pub mod launch;
pub mod sources;
pub mod supervisor;
