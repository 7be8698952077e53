//! Wire exchange and binary waveform decoding for a bench oscilloscope.
//!
//! The crate finds the instrument among the resources of an
//! instrument-control transport, composes the command lines that drive one
//! acquisition, frames the definite-length block that answers them, and
//! decodes the block's body into metadata and samples.
//!
//! It performs no input or output itself. The state machines
//! [`locator::Locator`], [`acquisition::Acquisition`] and
//! [`block::BlockReader`] say what to do next on the transport, and the
//! caller reports back what came of it. [`discovery`] and [`exchange`] state,
//! against models of the transport, what the first two come to.
//!
//! Floating-point numbers are held as their bit patterns
//! ([`metadata::Binary32`]); raw samples are held as their 16-bit codes, which
//! the metadata's vertical fields map to volts.

pub mod acquisition;
pub mod block;
pub mod commands;
pub mod discovery;
pub mod error;
pub mod exchange;
pub mod locator;
pub mod metadata;
pub mod samples;
pub mod transfer;
pub mod wire;
