pub mod headers;
pub mod ip_ranges;
pub mod stats;
pub mod writer;
