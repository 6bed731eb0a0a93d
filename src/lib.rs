pub mod command;
pub mod error;
pub mod laws;
pub mod list;
pub mod task;
pub mod text;
