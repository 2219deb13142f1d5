//! Running packet counters, printed periodically or on shutdown.
//!
//! The capture callbacks run on several cores at once and all of them bump
//! these counters, so each counter is a relaxed atomic rather than a field
//! behind a mutex: a mutex here would serialize the hot path for no benefit.
use crate::common::writer::decimal;
use crate::common::writer::push_decimal;
use std::sync::atomic::{AtomicU64, Ordering};
use vstd::prelude::*;

verus! {

/// A counter that any number of threads may bump through a shared
/// reference.
#[derive(Debug, Default)]
pub struct Counter(AtomicU64);

impl Counter {
    /// Add one (relaxed; wraps at `u64::MAX`).
    pub fn inc(&self) {
        self.0.fetch_add(1, Ordering::Relaxed);
    }

    /// The current count (relaxed load).
    pub fn get(&self) -> u64 {
        self.0.load(Ordering::Relaxed)
    }
}

/// The counters of one capture run.
#[derive(Debug, Default)]
pub struct Stats {
    /// Every UDP payload handed to the classifier, matched or not.
    pub packets_seen: Counter,
    /// Parsed successfully as a Zoom SFU/Media header.
    pub packets_matched: Counter,
    /// Dropped before header parsing was even attempted, because neither
    /// endpoint is on the published Zoom server list. Kept apart from
    /// `packets_unmatched` so that "wrong endpoint" and "right endpoint,
    /// but the bytes didn't parse" stay distinguishable in the summary.
    pub packets_ip_filtered: Counter,
    /// Passed the IP filter but didn't parse as Zoom's header format.
    pub packets_unmatched: Counter,
    /// Matched AND classified as one of the "media is active" types
    /// (video/audio/screenshare). Type 21, RTCP and unknown types are
    /// deliberately excluded.
    pub packets_active_media: Counter,
}

/// The summary line for the given counter values.
pub open spec fn summary_text(seen: u64, ip_filtered: u64, matched: u64, unmatched: u64, active: u64) -> Seq<char> {
    "zoom_capture stats: seen="@ + decimal(seen as nat) + " ip_filtered="@ + decimal(
        ip_filtered as nat,
    ) + " matched="@ + decimal(matched as nat) + " unmatched="@ + decimal(unmatched as nat)
        + " active_media="@ + decimal(active as nat)
}

/// The one-line summary of a run, from counter values read by the caller:
/// `zoom_capture stats: seen=.. ip_filtered=.. matched=.. unmatched=.. active_media=..`.
pub fn summary_line(seen: u64, ip_filtered: u64, matched: u64, unmatched: u64, active: u64) -> (r: String)
    ensures
        r@ == summary_text(seen, ip_filtered, matched, unmatched, active),
{
    let mut s = String::new();
    s.append("zoom_capture stats: seen=");
    push_decimal(&mut s, seen);
    s.append(" ip_filtered=");
    push_decimal(&mut s, ip_filtered);
    s.append(" matched=");
    push_decimal(&mut s, matched);
    s.append(" unmatched=");
    push_decimal(&mut s, unmatched);
    s.append(" active_media=");
    push_decimal(&mut s, active);
    s
}

} // verus!
