pub mod branches;
pub mod config;
pub mod deletion;
pub mod error;
pub mod filters;
pub mod pattern;
pub mod pipeline;
pub mod policy;
pub mod strutil;
