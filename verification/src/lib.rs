//! Verified core of a log monitoring toolkit: incremental tailing of
//! append-only log files with rotation detection, structured line
//! classification, a filter pipeline, and checksum utilities.

pub mod checksum;
pub mod classify;
pub mod cursor;
pub mod filter;
pub mod record;
pub mod text;
pub mod worker;
