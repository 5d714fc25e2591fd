//! Core of a parallel asset-upload pipeline: a batch of assets is prepared
//! once, uploaded concurrently by a backend adapter, and the per-asset
//! outcomes are aggregated into a success map and a failure list.
//!
//! The verified library holds the orchestration logic: configuration
//! validation, path and URL resolution, the retry decision, and result
//! aggregation. The surrounding asynchronous plumbing and the file I/O are
//! left to an unverified shell that calls into this crate.

pub mod assets;
pub mod config;
pub mod errors;
pub mod localhost;
pub mod orchestrator;
pub mod paths;
pub mod retry;
pub mod urls;
