//! What the device's network client computes on what it reads.

pub mod http;
