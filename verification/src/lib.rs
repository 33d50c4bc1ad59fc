//! Verified core of a CDN cache audit: expanding catalog entries into probe
//! targets, classifying probe outcomes into cache verdicts, scheduling a
//! bounded pool of probes, and aggregating fleet-wide statistics.

pub mod catalog;
pub mod classify;
pub mod report;
pub mod schedule;
pub mod stats;
pub mod duration;
pub mod text;
