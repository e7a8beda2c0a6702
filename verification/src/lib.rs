//! Client-side update-and-telemetry pipeline.
//!
//! Two subsystems share this crate: a version-check and self-update state
//! machine that decides whether a newer build is available and drives one
//! download/install cycle at a time, and a telemetry pipeline that coalesces,
//! batches and checksums usage events before they are sent.  All decision
//! logic lives here, verified; transport, timers and platform calls stay with
//! the embedding application, which hands plain values in and out.

pub mod version;
pub mod updater;
pub mod coalescer;
pub mod checksum;
pub mod telemetry;
pub mod os_release;
