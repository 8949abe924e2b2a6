//! Firmware provisioning for embedded devices: choosing a chip and a firmware
//! binary from a catalog, keeping binary parts in a hash-checked local cache,
//! tracking the progress of a streamed download, and sequencing the steps that
//! program a device part by part.

pub mod catalog;
pub mod resolve;
pub mod cache;
pub mod fetch;
pub mod flash;
pub mod client;
pub mod log_entry;
