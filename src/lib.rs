//! Descriptive statistics over an in-memory byte buffer: newline count,
//! word count and occurrences of a literal byte pattern, and the report
//! that presents them.

pub mod buffer;
pub mod report;
pub mod stats;
