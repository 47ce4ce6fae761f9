//! Recovery planning: what each recovered file is called and where it goes,
//! and the report of a recovery run.

pub mod error;
pub mod sanitize;
pub mod options;
pub mod validation;
pub mod report;
pub mod engine;
pub mod progress;
pub mod timestamps;
