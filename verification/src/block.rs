//! The definite-length block that carries a waveform: `#`, one digit `N`,
//! `N` decimal digits that give the size, that many body bytes, and one
//! terminator byte.
//!
//! [`BlockReader`] takes the block apart chunk by chunk, so that a caller on a
//! blocking transport always knows how many bytes to wait for next.
//! [`read_block`] runs it over bytes that are already in memory.

use crate::error::ErrorKind;
use crate::wire::{decimal_outcome, is_digit, parse_decimal};
use vstd::prelude::*;
use vstd::slice::{slice_subrange, slice_to_vec};

verus! {

broadcast use vstd::slice::group_slice_axioms;

/// How far the reading of one block has come.
#[derive(Clone, Debug, PartialEq, Eq)]
pub enum BlockReader {
    /// Nothing read yet: the two-byte prefix comes next.
    Prefix,
    /// The prefix announced this many size digits.
    Digits(usize),
    /// The size digits announced a body of this many bytes.
    Body(usize),
    /// The body is in hand; one terminator byte is still to come.
    Terminator(Vec<u8>),
    /// The block is read; this is its body.
    Complete(Vec<u8>),
    /// The block cannot be read.
    Failed(ErrorKind),
}

/// The mathematical content of a [`BlockReader`].
pub enum BlockState {
    Prefix,
    Digits(nat),
    Body(nat),
    Terminator(Seq<u8>),
    Complete(Seq<u8>),
    Failed(ErrorKind),
}

impl View for BlockReader {
    type V = BlockState;

    open spec fn view(&self) -> BlockState {
        match self {
            BlockReader::Prefix => BlockState::Prefix,
            BlockReader::Digits(n) => BlockState::Digits(*n as nat),
            BlockReader::Body(size) => BlockState::Body(*size as nat),
            BlockReader::Terminator(body) => BlockState::Terminator(body@),
            BlockReader::Complete(body) => BlockState::Complete(body@),
            BlockReader::Failed(e) => BlockState::Failed(*e),
        }
    }
}

/// Whether a two-byte prefix opens a definite-length block: `#`, then a
/// digit other than `0`.
pub open spec fn prefix_is_valid(prefix: Seq<u8>) -> bool {
    &&& prefix.len() == 2
    &&& prefix[0] == 0x23
    &&& is_digit(prefix[1])
    &&& prefix[1] != 0x30
}

/// The number of bytes that the next chunk must hold.
pub open spec fn block_wanted(s: BlockState) -> nat {
    match s {
        BlockState::Prefix => 2,
        BlockState::Digits(n) => n,
        BlockState::Body(size) => size,
        BlockState::Terminator(_) => 1,
        BlockState::Complete(_) => 0,
        BlockState::Failed(_) => 0,
    }
}

/// Whether the reading has ended, in a body or in an error.
pub open spec fn block_finished(s: BlockState) -> bool {
    s is Complete || s is Failed
}

/// The state after `chunk` has arrived in state `s`.
///
/// A chunk of another length than the one wanted is what a failed read
/// leaves, and is a transport error. A prefix that is not `#` and a digit
/// from 1 to 9, or a size field that is not all digits, is a framing error.
/// The terminator byte is not looked at.
pub open spec fn block_step(s: BlockState, chunk: Seq<u8>) -> BlockState {
    if block_finished(s) {
        s
    } else if chunk.len() != block_wanted(s) {
        BlockState::Failed(ErrorKind::Transport)
    } else {
        match s {
            BlockState::Prefix => if prefix_is_valid(chunk) {
                BlockState::Digits((chunk[1] - 0x30) as nat)
            } else {
                BlockState::Failed(ErrorKind::Framing)
            },
            BlockState::Digits(_) => match decimal_outcome(chunk) {
                Some(size) => BlockState::Body(size),
                None => BlockState::Failed(ErrorKind::Framing),
            },
            BlockState::Body(_) => BlockState::Terminator(chunk),
            BlockState::Terminator(body) => BlockState::Complete(body),
            _ => s,
        }
    }
}

impl BlockReader {
    /// A reader at the start of a block.
    pub fn new() -> (reader: BlockReader)
        ensures
            reader@ == BlockState::Prefix,
    {
        BlockReader::Prefix
    }

    /// The number of bytes to read from the transport next.
    pub fn wanted(&self) -> (n: usize)
        ensures
            n == block_wanted(self@),
    {
        match self {
            BlockReader::Prefix => 2,
            BlockReader::Digits(n) => *n,
            BlockReader::Body(size) => *size,
            BlockReader::Terminator(_) => 1,
            BlockReader::Complete(_) => 0,
            BlockReader::Failed(_) => 0,
        }
    }

    /// Whether there is nothing more to read: the block is complete or failed.
    pub fn is_finished(&self) -> (done: bool)
        ensures
            done == block_finished(self@),
    {
        match self {
            BlockReader::Complete(_) => true,
            BlockReader::Failed(_) => true,
            _ => false,
        }
    }

    /// Takes the bytes that the transport delivered for the last `wanted()`
    /// and moves on.
    pub fn accept(self, chunk: Vec<u8>) -> (next: BlockReader)
        ensures
            next@ == block_step(self@, chunk@),
    {
        if self.is_finished() {
            return self;
        }
        if chunk.len() != self.wanted() {
            return BlockReader::Failed(ErrorKind::Transport);
        }
        match self {
            BlockReader::Prefix => {
                if chunk[0] == 0x23 && 0x31 <= chunk[1] && chunk[1] <= 0x39 {
                    BlockReader::Digits((chunk[1] - 0x30) as usize)
                } else {
                    BlockReader::Failed(ErrorKind::Framing)
                }
            },
            BlockReader::Digits(_) => match parse_decimal(chunk.as_slice()) {
                Some(size) => BlockReader::Body(size as usize),
                None => BlockReader::Failed(ErrorKind::Framing),
            },
            BlockReader::Body(_) => BlockReader::Terminator(chunk),
            BlockReader::Terminator(body) => BlockReader::Complete(body),
            other => other,
        }
    }

    /// The outcome of a finished reading: the body or the error. A reading
    /// that was given up before its end counts as a transport error.
    pub fn finish(self) -> (r: Result<Vec<u8>, ErrorKind>)
        ensures
            block_result_view(r) == block_result(self@),
    {
        match self {
            BlockReader::Complete(body) => Ok(body),
            BlockReader::Failed(e) => Err(e),
            _ => Err(ErrorKind::Transport),
        }
    }
}

/// The outcome that a state stands for: see [`BlockReader::finish`].
pub open spec fn block_result(s: BlockState) -> Result<Seq<u8>, ErrorKind> {
    match s {
        BlockState::Complete(body) => Ok(body),
        BlockState::Failed(e) => Err(e),
        _ => Err(ErrorKind::Transport),
    }
}

/// A reading's outcome with the body taken by its view.
pub open spec fn block_result_view(r: Result<Vec<u8>, ErrorKind>) -> Result<Seq<u8>, ErrorKind> {
    match r {
        Ok(body) => Ok(body@),
        Err(e) => Err(e),
    }
}

/// The number of chunks that a state is away from the end at most.
pub open spec fn chunks_left(s: BlockState) -> nat {
    match s {
        BlockState::Prefix => 4,
        BlockState::Digits(_) => 3,
        BlockState::Body(_) => 2,
        BlockState::Terminator(_) => 1,
        BlockState::Complete(_) => 0,
        BlockState::Failed(_) => 0,
    }
}

/// Every chunk brings an unfinished reading closer to its end.
pub proof fn lemma_step_progress(s: BlockState, chunk: Seq<u8>)
    requires
        !block_finished(s),
    ensures
        chunks_left(block_step(s, chunk)) < chunks_left(s),
{
}

/// Where a reading ends that is in state `s` with the next unread byte of
/// `stream` at `at`: the state it finishes in and the offset behind the last
/// byte it read. A stream that ends before the wanted bytes fails the read.
pub open spec fn run_from(s: BlockState, stream: Seq<u8>, at: nat) -> (BlockState, nat)
    decreases chunks_left(s),
{
    if block_finished(s) {
        (s, at)
    } else if at + block_wanted(s) > stream.len() {
        (BlockState::Failed(ErrorKind::Transport), at)
    } else {
        let chunk = stream.subrange(at as int, (at + block_wanted(s)) as int);
        run_from(block_step(s, chunk), stream, at + block_wanted(s))
    }
}

/// The size digits of a stream whose prefix is valid.
pub open spec fn size_field(stream: Seq<u8>) -> Seq<u8> {
    stream.subrange(2, 2 + (stream[1] - 0x30))
}

/// What reading one block from the front of `stream` comes to, by the block
/// format alone: the body and the number of bytes that the block took, or
/// the error. A stream that ends inside the block is a transport error, as a
/// read that times out is.
pub open spec fn block_outcome(stream: Seq<u8>) -> Result<(Seq<u8>, nat), ErrorKind> {
    if stream.len() < 2 {
        Err(ErrorKind::Transport)
    } else if !prefix_is_valid(stream.subrange(0, 2)) {
        Err(ErrorKind::Framing)
    } else {
        let n = (stream[1] - 0x30) as int;
        if stream.len() < 2 + n {
            Err(ErrorKind::Transport)
        } else {
            match decimal_outcome(size_field(stream)) {
                None => Err(ErrorKind::Framing),
                Some(size) => {
                    let end = 2 + n + size;
                    if stream.len() < end + 1 {
                        Err(ErrorKind::Transport)
                    } else {
                        Ok((stream.subrange(2 + n, end), (end + 1) as nat))
                    }
                },
            }
        }
    }
}

/// The outcome of a reading that ended in state `s` behind `at` bytes.
pub open spec fn outcome_of(end: (BlockState, nat)) -> Result<(Seq<u8>, nat), ErrorKind> {
    match end.0 {
        BlockState::Complete(body) => Ok((body, end.1)),
        BlockState::Failed(e) => Err(e),
        _ => Err(ErrorKind::Transport),
    }
}

/// The reader, fed from a stream chunk by chunk, ends as the block format
/// says: with the same body behind the same number of bytes, or with the
/// same error.
pub proof fn lemma_reader_follows_format(stream: Seq<u8>)
    ensures
        outcome_of(run_from(BlockState::Prefix, stream, 0)) == block_outcome(stream),
{
    reveal_with_fuel(run_from, 5);
    if stream.len() >= 2 {
        let prefix = stream.subrange(0, 2);
        assert(prefix[0] == stream[0] && prefix[1] == stream[1]);
        if prefix_is_valid(prefix) {
            let n = (stream[1] - 0x30) as int;
            let s1 = block_step(BlockState::Prefix, prefix);
            assert(s1 == BlockState::Digits(n as nat));
            if stream.len() >= 2 + n {
                let field = stream.subrange(2, 2 + n);
                assert(field == size_field(stream));
                let s2 = block_step(s1, field);
                match decimal_outcome(field) {
                    None => {
                        assert(s2 == BlockState::Failed(ErrorKind::Framing));
                    },
                    Some(size) => {
                        assert(s2 == BlockState::Body(size));
                        if stream.len() >= 2 + n + size {
                            let body = stream.subrange(2 + n, 2 + n + size);
                            let s3 = block_step(s2, body);
                            assert(s3 == BlockState::Terminator(body));
                            if stream.len() >= 2 + n + size + 1 {
                                let last = stream.subrange(2 + n + size, 2 + n + size + 1);
                                let s4 = block_step(s3, last);
                                assert(s4 == BlockState::Complete(body));
                            }
                        }
                    },
                }
            }
        }
    }
}

/// A block's outcome with the body taken by its view.
pub open spec fn read_result_view(r: Result<(Vec<u8>, usize), ErrorKind>) -> Result<
    (Seq<u8>, nat),
    ErrorKind,
> {
    match r {
        Ok((body, taken)) => Ok((body@, taken as nat)),
        Err(e) => Err(e),
    }
}

/// Reads one block from the front of `stream`, and returns its body with
/// the number of bytes that the block took, terminator included.
pub fn read_block(stream: &[u8]) -> (r: Result<(Vec<u8>, usize), ErrorKind>)
    ensures
        read_result_view(r) == block_outcome(stream@),
{
    let mut reader = BlockReader::new();
    let mut at: usize = 0;
    proof {
        lemma_reader_follows_format(stream@);
    }
    while !reader.is_finished()
        invariant
            at <= stream.len(),
            outcome_of(run_from(reader@, stream@, at as nat)) == block_outcome(stream@),
        decreases chunks_left(reader@),
    {
        let n: usize = reader.wanted();
        if n > stream.len() - at {
            return Err(ErrorKind::Transport);
        }
        let chunk = slice_to_vec(slice_subrange(stream, at, at + n));
        proof {
            lemma_step_progress(reader@, chunk@);
        }
        reader = reader.accept(chunk);
        at = at + n;
    }
    match reader.finish() {
        Ok(body) => Ok((body, at)),
        Err(e) => Err(e),
    }
}

/// A stream of at least two bytes that does not start with `#` is a framing
/// error, and so is one that announces a block of indefinite length, `#0`.
pub proof fn lemma_bad_prefix_is_framing_error(stream: Seq<u8>)
    requires
        stream.len() >= 2,
        stream[0] != 0x23 || stream[1] == 0x30,
    ensures
        block_outcome(stream) == Err::<(Seq<u8>, nat), ErrorKind>(ErrorKind::Framing),
{
    let prefix = stream.subrange(0, 2);
    assert(prefix[0] == stream[0] && prefix[1] == stream[1]);
}

/// A block that reads well is laid out as the format says: the body stands
/// behind the prefix and the size field, is as long as the size field says,
/// and the block ends one terminator byte behind it.
pub proof fn lemma_block_layout(stream: Seq<u8>)
    requires
        block_outcome(stream) is Ok,
    ensures
        ({
            let (body, taken) = block_outcome(stream)->Ok_0;
            let n = (stream[1] - 0x30) as int;
            &&& stream[0] == 0x23
            &&& 1 <= n <= 9
            &&& decimal_outcome(size_field(stream)) == Some(body.len())
            &&& taken == 2 + n + body.len() + 1
            &&& taken <= stream.len()
            &&& body == stream.subrange(2 + n, 2 + n + body.len())
        }),
{
    let prefix = stream.subrange(0, 2);
    assert(prefix[0] == stream[0] && prefix[1] == stream[1]);
}

} // verus!
