//! A fixed-capacity circular log of key/value entries stored in a byte
//! buffer with a deterministic little-endian layout, together with a keyed
//! changelog facade that supports appending entries and looking up the most
//! recent value for a key by a bounded backward scan.

pub mod changelog;
pub mod circular_log;
pub mod comparisons;
pub mod encoding;
