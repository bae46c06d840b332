//! A streaming line filter for comma-delimited text.
//!
//! Input is parsed into records (rows of fields, with no fixed field
//! count); each record is re-serialized into a single line by joining
//! its fields with `,`, and the line is emitted when a regular
//! expression matches anywhere within it. The first record (a header)
//! can be exempted from matching and always passed through.

pub mod config;
pub mod pattern;
pub mod pipeline;
pub mod record;
pub mod tester;
