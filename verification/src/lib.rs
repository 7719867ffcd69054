//! A continuous URL-availability monitor, as a verified library.
//!
//! The library holds everything the monitor decides: configuration
//! validation, the classification of a probe outcome as UP or DOWN, the
//! status ledger with its change detection, the formatting of startup and
//! change reports, and the choice of where a notification goes. The
//! surrounding binary only performs the outside work those decisions ask
//! for: reading the environment, sending HTTP requests, and sleeping
//! between cycles.

pub mod verdict;
pub mod text;
pub mod config;
pub mod monitor;
pub mod message;
pub mod notify;
