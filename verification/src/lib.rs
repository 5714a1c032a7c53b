//! Streaming orchestration for a frame-by-frame speech-enhancement pipeline:
//! configuration validation, stage shape binding and delay bookkeeping, a
//! spectral history ring, the deep-filtering operator, and the per-frame
//! state machine that drives them.

pub mod config;
pub mod delay;
pub mod errors;
pub mod filter;
pub mod num;
pub mod pipeline;
pub mod ring;
pub mod stage;
