//! Protocol and session engine for a wrist-worn heart-rate tracker that is
//! reached over Bluetooth Low Energy.
//!
//! The crate holds the binary frame codec, the telemetry record decoder, the
//! heart-rate-variability arithmetic, the decisions of the download session
//! and of device discovery. Everything here works on plain values; the
//! transport, the database and the terminal stay with the caller.

pub mod checksum;
pub mod cli;
pub mod command;
pub mod discovery;
pub mod frame;
pub mod history;
pub mod hrv;
pub mod ingest;
pub mod names;
pub mod packet;
pub mod platform;
pub mod record;
pub mod replay;
pub mod scanner;
pub mod segmentation;
pub mod session;
pub mod stream;
pub mod sync;
