//! The samples behind the metadata, and the decoding of a whole body.

use crate::error::ErrorKind;
use crate::metadata::{
    binary32_at, metadata_of, metadata_outcome, parse_metadata, Binary32, WaveformMetadata,
};
use crate::transfer::TransferType;
use crate::wire::{le_u16_at, read_u16_at, read_u32_at};
use vstd::prelude::*;
use vstd::slice::slice_subrange;

verus! {

broadcast use vstd::slice::group_slice_axioms;

/// The samples of one block, in the encoding they were sent in.
#[derive(Clone, Debug, PartialEq, Eq)]
pub enum SampleData {
    /// Raw 16-bit codes; the metadata's vertical fields map them to volts.
    Codes(Vec<u16>),
    /// Voltages as the instrument computed them.
    Values(Vec<Binary32>),
}

/// The mathematical content of a [`SampleData`].
pub enum SampleSeq {
    Codes(Seq<u16>),
    Values(Seq<Binary32>),
}

impl SampleSeq {
    /// The number of samples.
    pub open spec fn len(self) -> nat {
        match self {
            SampleSeq::Codes(codes) => codes.len(),
            SampleSeq::Values(values) => values.len(),
        }
    }
}

impl View for SampleData {
    type V = SampleSeq;

    open spec fn view(&self) -> SampleSeq {
        match self {
            SampleData::Codes(codes) => SampleSeq::Codes(codes@),
            SampleData::Values(values) => SampleSeq::Values(values@),
        }
    }
}

impl SampleData {
    /// The number of samples.
    pub fn len(&self) -> (n: usize)
        ensures
            n == self@.len(),
    {
        match self {
            SampleData::Codes(codes) => codes.len(),
            SampleData::Values(values) => values.len(),
        }
    }
}

/// The 16-bit codes that a payload spells: one for each full pair of bytes,
/// least significant byte first. A last odd byte stands for nothing.
pub open spec fn codes_of(payload: Seq<u8>) -> Seq<u16> {
    Seq::new((payload.len() / 2) as nat, |i: int| le_u16_at(payload, 2 * i) as u16)
}

/// The binary32 values that a payload spells: one for each full group of
/// four bytes. Up to three last bytes stand for nothing.
pub open spec fn values_of(payload: Seq<u8>) -> Seq<Binary32> {
    Seq::new((payload.len() / 4) as nat, |i: int| binary32_at(payload, 4 * i))
}

/// The samples that a payload spells under a transfer type.
pub open spec fn samples_of(payload: Seq<u8>, tt: TransferType) -> SampleSeq {
    match tt {
        TransferType::Raw => SampleSeq::Codes(codes_of(payload)),
        TransferType::NonRaw => SampleSeq::Values(values_of(payload)),
    }
}

/// The part of a body that follows the metadata.
pub open spec fn payload_of(body: Seq<u8>, tt: TransferType) -> Seq<u8> {
    body.subrange(tt.metadata_size() as int, body.len() as int)
}

/// What extracting the samples of `body` comes to.
pub open spec fn samples_outcome(body: Seq<u8>, tt: TransferType) -> Result<SampleSeq, ErrorKind> {
    if body.len() < tt.metadata_size() {
        Err(ErrorKind::Framing)
    } else {
        Ok(samples_of(payload_of(body, tt), tt))
    }
}

/// A result of sample extraction with its samples taken by their view.
pub open spec fn samples_result_view(r: Result<SampleData, ErrorKind>) -> Result<
    SampleSeq,
    ErrorKind,
> {
    match r {
        Ok(samples) => Ok(samples@),
        Err(e) => Err(e),
    }
}

/// Decodes a payload of little-endian 16-bit codes.
pub fn decode_codes(payload: &[u8]) -> (codes: Vec<u16>)
    ensures
        codes@ == codes_of(payload@),
{
    let count: usize = payload.len() / 2;
    let mut codes: Vec<u16> = Vec::with_capacity(count);
    let mut i: usize = 0;
    while i < count
        invariant
            count == payload.len() / 2,
            i <= count,
            codes@.len() == i,
            forall|k: int| 0 <= k < i ==> codes@[k] == le_u16_at(payload@, 2 * k) as u16,
        decreases count - i,
    {
        let code: u16 = read_u16_at(payload, 2 * i);
        codes.push(code);
        i += 1;
    }
    assert(codes@ =~= codes_of(payload@));
    codes
}

/// Decodes a payload of little-endian binary32 values.
pub fn decode_values(payload: &[u8]) -> (values: Vec<Binary32>)
    ensures
        values@ == values_of(payload@),
{
    let count: usize = payload.len() / 4;
    let mut values: Vec<Binary32> = Vec::with_capacity(count);
    let mut i: usize = 0;
    while i < count
        invariant
            count == payload.len() / 4,
            i <= count,
            values@.len() == i,
            forall|k: int| 0 <= k < i ==> values@[k] == binary32_at(payload@, 4 * k),
        decreases count - i,
    {
        let bits: u32 = read_u32_at(payload, 4 * i);
        values.push(Binary32 { bits });
        i += 1;
    }
    assert(values@ =~= values_of(payload@));
    values
}

/// Extracts the samples of a block's body: what follows the metadata,
/// decoded by the transfer type. Bytes at the end that do not fill a sample
/// are ignored; a body shorter than the metadata is a framing error.
pub fn extract_waveform(data: &[u8], tt: TransferType) -> (r: Result<SampleData, ErrorKind>)
    ensures
        samples_result_view(r) == samples_outcome(data@, tt),
        r is Ok ==> r->Ok_0@.len() == (data.len() - tt.metadata_size()) / (
        tt.sample_width() as int),
{
    let start: usize = tt.metadata_size();
    if data.len() < start {
        return Err(ErrorKind::Framing);
    }
    let payload = slice_subrange(data, start, data.len());
    match tt {
        TransferType::Raw => Ok(SampleData::Codes(decode_codes(payload))),
        TransferType::NonRaw => Ok(SampleData::Values(decode_values(payload))),
    }
}

/// One decoded block: its metadata and its samples.
#[derive(Clone, Debug, PartialEq, Eq)]
pub struct Waveform {
    pub metadata: WaveformMetadata,
    pub samples: SampleData,
}

/// The mathematical content of a [`Waveform`].
pub struct WaveformView {
    pub metadata: WaveformMetadata,
    pub samples: SampleSeq,
}

impl View for Waveform {
    type V = WaveformView;

    open spec fn view(&self) -> WaveformView {
        WaveformView { metadata: self.metadata, samples: self.samples@ }
    }
}

impl Waveform {
    /// The number of samples, which is also the length of the time axis:
    /// sample `i` was taken at `start_time + i * time_delta`.
    pub fn len(&self) -> (n: usize)
        ensures
            n == self@.samples.len(),
    {
        self.samples.len()
    }
}

/// What decoding `body` comes to: a framing error on a body shorter than
/// the metadata, and otherwise the metadata with the samples behind it.
pub open spec fn waveform_outcome(body: Seq<u8>, tt: TransferType) -> Result<
    WaveformView,
    ErrorKind,
> {
    if body.len() < tt.metadata_size() {
        Err(ErrorKind::Framing)
    } else {
        Ok(
            WaveformView {
                metadata: metadata_of(body, tt),
                samples: samples_of(payload_of(body, tt), tt),
            },
        )
    }
}

/// A result of decoding with its waveform taken by its view.
pub open spec fn waveform_result_view(r: Result<Waveform, ErrorKind>) -> Result<
    WaveformView,
    ErrorKind,
> {
    match r {
        Ok(waveform) => Ok(waveform@),
        Err(e) => Err(e),
    }
}

/// Decodes the body of a block into metadata and samples.
pub fn decode_waveform(body: &[u8], tt: TransferType) -> (r: Result<Waveform, ErrorKind>)
    ensures
        waveform_result_view(r) == waveform_outcome(body@, tt),
{
    let metadata = match parse_metadata(body, tt) {
        Ok(metadata) => metadata,
        Err(e) => {
            return Err(e);
        },
    };
    let samples = match extract_waveform(body, tt) {
        Ok(samples) => samples,
        Err(e) => {
            return Err(e);
        },
    };
    Ok(Waveform { metadata, samples })
}

/// The number of samples is the number of whole samples that fit in the
/// payload: half its length for raw codes, a quarter for values, rounded down.
pub proof fn lemma_sample_count(payload: Seq<u8>, tt: TransferType)
    ensures
        samples_of(payload, tt).len() == payload.len() / (tt.sample_width() as nat),
        tt == TransferType::Raw ==> samples_of(payload, tt).len() == payload.len() / 2,
        tt == TransferType::NonRaw ==> samples_of(payload, tt).len() == payload.len() / 4,
{
}

/// A body shorter than the metadata of its transfer type never decodes:
/// fewer than 32 bytes for raw codes, fewer than 16 otherwise, is a framing
/// error, for the metadata, for the samples and for the whole.
pub proof fn lemma_short_body_is_framing_error(body: Seq<u8>, tt: TransferType)
    requires
        (tt == TransferType::Raw && body.len() < 32) || (tt == TransferType::NonRaw && body.len()
            < 16),
    ensures
        metadata_outcome(body, tt) == Err::<WaveformMetadata, ErrorKind>(ErrorKind::Framing),
        samples_outcome(body, tt) == Err::<SampleSeq, ErrorKind>(ErrorKind::Framing),
        waveform_outcome(body, tt) == Err::<WaveformView, ErrorKind>(ErrorKind::Framing),
{
}

/// Decoding is a function of the body and the transfer type: any two results
/// that the decoder can give for the same body hold the same metadata and
/// the same samples, or are the same error.
pub proof fn lemma_decoding_repeats(
    body: Seq<u8>,
    tt: TransferType,
    first: Result<Waveform, ErrorKind>,
    second: Result<Waveform, ErrorKind>,
)
    requires
        waveform_result_view(first) == waveform_outcome(body, tt),
        waveform_result_view(second) == waveform_outcome(body, tt),
    ensures
        first is Ok <==> second is Ok,
        first is Ok ==> first->Ok_0.metadata == second->Ok_0.metadata && first->Ok_0.samples@
            == second->Ok_0.samples@,
        first is Err ==> first->Err_0 == second->Err_0,
{
}

} // verus!
