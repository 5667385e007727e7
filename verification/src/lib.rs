//! A scripted-dialogue engine: typed variables, the comparisons and operations
//! that act on them, the template renderer, the script with its validator, and
//! the session that walks a script one input at a time.

pub mod check;
pub mod compare;
pub mod config;
pub mod dict;
pub mod error;
pub mod float;
pub mod operation;
pub mod output;
pub mod sakiko;
pub mod text;
pub mod trusted;
pub mod variable;

pub use crate::config::SakikoConfig;
pub use crate::sakiko::Session;
