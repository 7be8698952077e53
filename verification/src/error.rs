//! The kinds of failure that an acquisition can end in.

use vstd::prelude::*;

verus! {

/// Why an acquisition, or a step of it, failed.
#[derive(Clone, Copy, Debug, PartialEq, Eq, Structural)]
pub enum ErrorKind {
    /// Discovery went through every resource pattern without a match.
    DeviceNotFound,
    /// A write, a read or an open on the transport failed or timed out.
    Transport,
    /// The block header was malformed, or the body was too short for its metadata.
    Framing,
    /// An argument was outside its domain, such as a channel other than 1 to 4.
    InvalidArgument,
    /// The plot backend could not write the image.
    Render,
}

} // verus!
