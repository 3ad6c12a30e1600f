//! Cloud audit-log threat detection: event intake, time-window filtering,
//! rule matching, correlation bookkeeping and the running detection summary.

pub mod aggregate;
pub mod color;
pub mod correlation;
pub mod counter;
pub mod ct_summary;
pub mod json;
pub mod level;
pub mod log_source;
pub mod output;
pub mod pipeline;
pub mod profile;
pub mod report;
pub mod rule;
pub mod rules;
pub mod summary;
pub mod text;
pub mod time;
pub mod timefilter;
