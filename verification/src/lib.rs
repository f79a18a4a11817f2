//! Supervision of solver runs and bounded digests of their console output.

pub mod capture;
pub mod compress;
pub mod json;
pub mod prompt;
pub mod report;
pub mod sanitize;
pub mod supervisor;
pub mod text;
