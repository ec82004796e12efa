//! Re-shards a stream of newline-delimited JSON log records into one
//! gzip-framed target per calendar day.
//!
//! The library holds the decisions: how a line is decoded, which day it
//! belongs to, which target it is appended to, when a day's target is
//! released and what is reported. Opening and writing the targets is left to
//! the caller, who performs the [`router::Action`]s that the router hands out.

pub mod archive;
pub mod date;
pub mod digits;
pub mod frame;
pub mod paths;
pub mod record;
pub mod registry;
pub mod report;
pub mod router;
pub mod run;
