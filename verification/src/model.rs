//! The data that bootupd keeps about the content of a component.
use vstd::prelude::*;

verus! {

/// The directory, below a system root, where updates are stored.
pub const BOOTUPD_UPDATES_DIR: &'static str = "usr/lib/bootupd/updates";

/// A point in time, counted from 1970-01-01 00:00:00 UTC: whole seconds, then
/// the nanoseconds within that second.
#[derive(Clone, Copy, Debug, PartialEq, Eq, Structural)]
pub struct Timestamp {
    pub secs: i64,
    pub nanos: u32,
}

/// `a` is no later than `b`.
pub open spec fn time_le(a: Timestamp, b: Timestamp) -> bool {
    a.secs < b.secs || (a.secs == b.secs && a.nanos <= b.nanos)
}

impl Timestamp {
    /// Whether `self` is no later than `other`.
    pub fn is_le(&self, other: &Timestamp) -> (r: bool)
        ensures
            r == time_le(*self, *other),
    {
        self.secs < other.secs || (self.secs == other.secs && self.nanos <= other.nanos)
    }
}

/// What is known of the content of a component, installed or offered as an update.
#[derive(Clone, Debug)]
pub struct ContentMetadata {
    /// The timestamp, which is used to determine update availability.
    pub timestamp: Timestamp,
    /// Human readable version, never parsed, only displayed.
    pub version: Option<String>,
}

/// The view of an optional string.
pub open spec fn opt_chars(s: Option<String>) -> Option<Seq<char>> {
    match s {
        Some(s) => Some(s@),
        None => None,
    }
}

} // verus!
