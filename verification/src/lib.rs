//! Verified core of a DualSense controller battery monitor.
//!
//! The library covers transport detection, input-report decoding and the
//! connect/disconnect/status-refresh protocol of the device registry.
//! All device I/O lives outside the library; the functions here are pure
//! transformations on plain values, each with a proved contract.

pub mod device_manager;
pub mod errors;
pub mod laws;
pub mod proto;
pub mod session;
pub mod transport;
