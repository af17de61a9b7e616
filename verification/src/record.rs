//! The result of classifying one log line.

use vstd::prelude::*;

verus! {

/// One consumed log line, either decomposed into structured fields or kept
/// verbatim. Every consumed line yields exactly one record.
pub enum LogRecord {
    Structured {
        timestamp: Vec<u8>,
        hostname: Option<Vec<u8>>,
        process: Vec<u8>,
        pid: Option<u64>,
        level: Vec<u8>,
        message: Vec<u8>,
    },
    Raw { text: Vec<u8> },
}

/// Mathematical form of a record, with byte strings as sequences.
pub enum Rec {
    Structured {
        timestamp: Seq<u8>,
        hostname: Option<Seq<u8>>,
        process: Seq<u8>,
        pid: Option<u64>,
        level: Seq<u8>,
        message: Seq<u8>,
    },
    Raw { text: Seq<u8> },
}

impl View for LogRecord {
    type V = Rec;

    open spec fn view(&self) -> Rec {
        match self {
            LogRecord::Structured { timestamp, hostname, process, pid, level, message } => (
                Rec::Structured {
                    timestamp: timestamp@,
                    hostname: match hostname {
                        Some(h) => Some(h@),
                        None => None,
                    },
                    process: process@,
                    pid: *pid,
                    level: level@,
                    message: message@,
                }
            ),
            LogRecord::Raw { text } => Rec::Raw { text: text@ },
        }
    }
}

} // verus!
