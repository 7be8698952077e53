//! The two sample encodings that the instrument offers.

use crate::wire::bytes_equal;
use vstd::prelude::*;
use vstd::string::StringSliceAdditionalSpecFns;

verus! {

/// How the samples of a block are encoded, and with it the layout of the
/// metadata that precedes them.
#[derive(Clone, Copy, Debug, PartialEq, Eq, Structural)]
pub enum TransferType {
    /// Unsigned 16-bit codes behind eight metadata fields.
    Raw,
    /// 32-bit floating-point values behind four metadata fields.
    NonRaw,
}

/// The bytes of the token that selects the raw encoding.
pub open spec fn raw_token() -> Seq<u8> {
    "RAW".spec_bytes()
}

impl TransferType {
    /// The number of metadata bytes at the start of a body.
    pub open spec fn spec_metadata_size(self) -> usize {
        match self {
            TransferType::Raw => 32,
            TransferType::NonRaw => 16,
        }
    }

    /// The number of bytes that one sample takes.
    pub open spec fn spec_sample_width(self) -> usize {
        match self {
            TransferType::Raw => 2,
            TransferType::NonRaw => 4,
        }
    }

    /// Classifies a transfer-type token: `RAW` selects the raw encoding, and
    /// every other token one of the instrument's floating-point encodings.
    pub fn from_token(token: &[u8]) -> (t: TransferType)
        ensures
            t == TransferType::Raw <==> token@ == raw_token(),
    {
        if bytes_equal(token, "RAW".as_bytes()) {
            TransferType::Raw
        } else {
            TransferType::NonRaw
        }
    }

    /// The number of metadata bytes at the start of a body.
    #[verifier::when_used_as_spec(spec_metadata_size)]
    pub fn metadata_size(self) -> (n: usize)
        ensures
            n == self.spec_metadata_size(),
    {
        match self {
            TransferType::Raw => 32,
            TransferType::NonRaw => 16,
        }
    }

    /// The number of bytes that one sample takes.
    #[verifier::when_used_as_spec(spec_sample_width)]
    pub fn sample_width(self) -> (n: usize)
        ensures
            n == self.spec_sample_width(),
    {
        match self {
            TransferType::Raw => 2,
            TransferType::NonRaw => 4,
        }
    }
}

} // verus!
