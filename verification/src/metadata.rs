//! The fixed-layout record at the start of a block's body.

use crate::error::ErrorKind;
use crate::transfer::TransferType;
use crate::wire::{le_u32_at, read_u32_at};
use vstd::prelude::*;

verus! {

/// An IEEE-754 binary32 number, held as its 32-bit pattern.
#[derive(Clone, Copy, Debug, PartialEq, Eq, Structural)]
pub struct Binary32 {
    pub bits: u32,
}

/// What the instrument reports about the samples of one block.
#[derive(Clone, Copy, Debug, PartialEq, Eq, Structural)]
pub struct WaveformMetadata {
    /// Seconds between consecutive samples.
    pub time_delta: Binary32,
    /// Time of the first sample, in seconds.
    pub start_time: Binary32,
    /// Time of the last sample, in seconds.
    pub end_time: Binary32,
    /// Index of the first sample in acquisition memory; 0 unless raw.
    pub sample_start: u32,
    /// Count of returned samples; 0 unless raw.
    pub sample_length: u32,
    /// Voltage that code 0 stands for; zero unless raw.
    pub vertical_start: Binary32,
    /// Voltage span of the whole 16-bit code range; zero unless raw.
    pub vertical_step: Binary32,
    /// Count of samples that the instrument says the payload holds.
    pub sample_count: u32,
}

/// The binary32 whose pattern is the little-endian `u32` at `at`.
pub open spec fn binary32_at(body: Seq<u8>, at: int) -> Binary32 {
    Binary32 { bits: le_u32_at(body, at) as u32 }
}

/// The metadata that a body of at least `tt.metadata_size()` bytes starts with.
pub open spec fn metadata_of(body: Seq<u8>, tt: TransferType) -> WaveformMetadata {
    match tt {
        TransferType::Raw => WaveformMetadata {
            time_delta: binary32_at(body, 0),
            start_time: binary32_at(body, 4),
            end_time: binary32_at(body, 8),
            sample_start: le_u32_at(body, 12) as u32,
            sample_length: le_u32_at(body, 16) as u32,
            vertical_start: binary32_at(body, 20),
            vertical_step: binary32_at(body, 24),
            sample_count: le_u32_at(body, 28) as u32,
        },
        TransferType::NonRaw => WaveformMetadata {
            time_delta: binary32_at(body, 0),
            start_time: binary32_at(body, 4),
            end_time: binary32_at(body, 8),
            sample_start: 0,
            sample_length: 0,
            vertical_start: Binary32 { bits: 0 },
            vertical_step: Binary32 { bits: 0 },
            sample_count: le_u32_at(body, 12) as u32,
        },
    }
}

/// What parsing the metadata of `body` comes to: a framing error on a body
/// shorter than the metadata, and the decoded fields otherwise.
pub open spec fn metadata_outcome(body: Seq<u8>, tt: TransferType) -> Result<
    WaveformMetadata,
    ErrorKind,
> {
    if body.len() < tt.metadata_size() {
        Err(ErrorKind::Framing)
    } else {
        Ok(metadata_of(body, tt))
    }
}

/// Reads the binary32 at offset `at` of `data`.
fn read_binary32_at(data: &[u8], at: usize) -> (r: Binary32)
    requires
        at + 4 <= data.len(),
    ensures
        r == binary32_at(data@, at as int),
{
    Binary32 { bits: read_u32_at(data, at) }
}

/// Decodes the metadata at the start of a block's body.
pub fn parse_metadata(data: &[u8], tt: TransferType) -> (r: Result<WaveformMetadata, ErrorKind>)
    ensures
        r == metadata_outcome(data@, tt),
{
    if data.len() < tt.metadata_size() {
        return Err(ErrorKind::Framing);
    }
    let time_delta = read_binary32_at(data, 0);
    let start_time = read_binary32_at(data, 4);
    let end_time = read_binary32_at(data, 8);
    match tt {
        TransferType::Raw => Ok(
            WaveformMetadata {
                time_delta,
                start_time,
                end_time,
                sample_start: read_u32_at(data, 12),
                sample_length: read_u32_at(data, 16),
                vertical_start: read_binary32_at(data, 20),
                vertical_step: read_binary32_at(data, 24),
                sample_count: read_u32_at(data, 28),
            },
        ),
        TransferType::NonRaw => Ok(
            WaveformMetadata {
                time_delta,
                start_time,
                end_time,
                sample_start: 0,
                sample_length: 0,
                vertical_start: Binary32 { bits: 0 },
                vertical_step: Binary32 { bits: 0 },
                sample_count: read_u32_at(data, 12),
            },
        ),
    }
}

} // verus!
