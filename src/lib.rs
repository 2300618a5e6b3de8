//! Core of a light-intensity monitor: a bounded time-series buffer, a
//! Newton-Raphson iteration driver, the per-tick coordinator that moves
//! readings into the buffers, and the ingestion worker's decisions.
pub mod ingestion;
pub mod measurements;
pub mod pipeline;
pub mod screens;
