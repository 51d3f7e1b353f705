//! Host metrics collection: decoders for kernel statistics text and the
//! rules that turn them into labelled samples.

pub mod monitor;
pub mod monitors;
pub mod number;
pub mod sample;
pub mod scheduler;
pub mod text;
