//! Configuration resolution, template lookup, failure reporting and the
//! stage sequencing of a template compilation.

pub mod config;
pub mod error;
pub mod laws;
pub mod locate;
pub mod paths;
pub mod pipeline;
pub mod report;
pub mod source;
pub mod syntax;
