pub mod ast;
pub mod config_helpers;
pub mod context;
pub mod detect;
pub mod report;
pub mod text;
