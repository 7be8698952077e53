//! One acquisition from end to end: the commands go out in order, the
//! queries are answered, and the block that answers the last of them is
//! framed and decoded.
//!
//! [`Acquisition`] makes the decisions and leaves the transport to its
//! caller: `request` says what to do next on the session, and `advance`
//! takes what came of it. [`decode_reply`] does the last part alone, on an
//! answer that is already in memory.

use crate::block::{
    block_finished, block_outcome, block_step, block_wanted, read_block, BlockReader, BlockState,
};
use crate::commands::{
    command_script, command_sequence, script_view, Command, CommandView, Reply,
};
use crate::error::ErrorKind;
use crate::samples::{
    decode_waveform, waveform_outcome, waveform_result_view, Waveform, WaveformView,
};
use crate::transfer::{raw_token, TransferType};
use vstd::prelude::*;
use vstd::slice::slice_to_vec;

verus! {

/// What an answer comes to: the error of its framing, or else what decoding
/// the block's body comes to. Bytes behind the block play no part.
pub open spec fn reply_outcome(stream: Seq<u8>, tt: TransferType) -> Result<
    WaveformView,
    ErrorKind,
> {
    match block_outcome(stream) {
        Ok((body, _)) => waveform_outcome(body, tt),
        Err(e) => Err(e),
    }
}

/// Takes the block from the front of the instrument's answer and decodes
/// its body.
pub fn decode_reply(stream: &[u8], tt: TransferType) -> (r: Result<Waveform, ErrorKind>)
    ensures
        waveform_result_view(r) == reply_outcome(stream@, tt),
{
    match read_block(stream) {
        Ok((body, _)) => decode_waveform(body.as_slice(), tt),
        Err(e) => Err(e),
    }
}

/// What the caller is to do on the session.
#[derive(Clone, Debug, PartialEq, Eq)]
pub enum ExchangeRequest {
    /// Write these bytes.
    Write(Vec<u8>),
    /// Read one line, up to and including its newline.
    ReadLine,
    /// Read exactly this many bytes.
    ReadExact(usize),
    /// Nothing more: the acquisition has ended.
    Finished,
}

/// The mathematical content of an [`ExchangeRequest`].
pub enum ExchangeRequestView {
    Write(Seq<u8>),
    ReadLine,
    ReadExact(nat),
    Finished,
}

impl View for ExchangeRequest {
    type V = ExchangeRequestView;

    open spec fn view(&self) -> ExchangeRequestView {
        match self {
            ExchangeRequest::Write(bytes) => ExchangeRequestView::Write(bytes@),
            ExchangeRequest::ReadLine => ExchangeRequestView::ReadLine,
            ExchangeRequest::ReadExact(n) => ExchangeRequestView::ReadExact(*n as nat),
            ExchangeRequest::Finished => ExchangeRequestView::Finished,
        }
    }
}

/// What came of the last request.
#[derive(Clone, Debug, PartialEq, Eq)]
pub enum ExchangeEvent {
    /// The bytes are written.
    Written,
    /// This line was read.
    Line(Vec<u8>),
    /// These bytes were read.
    Bytes(Vec<u8>),
    /// The request failed or timed out.
    Failed,
}

/// The mathematical content of an [`ExchangeEvent`].
pub enum ExchangeEventView {
    Written,
    Line(Seq<u8>),
    Bytes(Seq<u8>),
    Failed,
}

impl View for ExchangeEvent {
    type V = ExchangeEventView;

    open spec fn view(&self) -> ExchangeEventView {
        match self {
            ExchangeEvent::Written => ExchangeEventView::Written,
            ExchangeEvent::Line(line) => ExchangeEventView::Line(line@),
            ExchangeEvent::Bytes(bytes) => ExchangeEventView::Bytes(bytes@),
            ExchangeEvent::Failed => ExchangeEventView::Failed,
        }
    }
}

/// How far the exchange has come.
pub enum ExchangeStage {
    /// The command at this index of the script is to be written.
    Sending(nat),
    /// The line that answers the command at this index is to be read.
    AwaitingLine(nat),
    /// The block that answers the command at this index is being read.
    AwaitingBlock(nat, BlockState),
    /// The acquisition has ended, in a waveform or in an error.
    Done(Result<WaveformView, ErrorKind>),
}

/// The mathematical content of an [`Acquisition`].
pub struct ExchangeState {
    /// The commands of the exchange.
    pub script: Seq<CommandView>,
    /// The encoding in which the samples were asked for.
    pub transfer: TransferType,
    /// The place in the exchange.
    pub stage: ExchangeStage,
}

impl ExchangeState {
    /// Whether the command in hand exists, and a block in hand is unfinished.
    pub open spec fn well_formed(self) -> bool {
        match self.stage {
            ExchangeStage::Sending(i) => i < self.script.len(),
            ExchangeStage::AwaitingLine(i) => i < self.script.len(),
            ExchangeStage::AwaitingBlock(i, block) => i < self.script.len() && !block_finished(
                block,
            ),
            ExchangeStage::Done(_) => true,
        }
    }

    /// Whether the acquisition has ended.
    pub open spec fn finished(self) -> bool {
        self.stage is Done
    }

    /// The same exchange at another place.
    pub open spec fn at(self, stage: ExchangeStage) -> ExchangeState {
        ExchangeState { stage, ..self }
    }
}

/// The stage that follows the command at index `i` once it is dealt with:
/// the next command. A script that ends without a block leaves no body to
/// decode, which is a framing error.
pub open spec fn after_command(script: Seq<CommandView>, i: nat) -> ExchangeStage {
    if i + 1 < script.len() {
        ExchangeStage::Sending(i + 1)
    } else {
        ExchangeStage::Done(Err(ErrorKind::Framing))
    }
}

/// The stage that follows when a chunk has brought the block to state `block`:
/// a complete block ends the acquisition in what its body decodes to, and a
/// failed one in its error.
pub open spec fn after_chunk(i: nat, block: BlockState, transfer: TransferType) -> ExchangeStage {
    match block {
        BlockState::Complete(body) => ExchangeStage::Done(waveform_outcome(body, transfer)),
        BlockState::Failed(e) => ExchangeStage::Done(Err(e)),
        _ => ExchangeStage::AwaitingBlock(i, block),
    }
}

/// What the caller is to do in state `s`.
pub open spec fn exchange_request(s: ExchangeState) -> ExchangeRequestView {
    match s.stage {
        ExchangeStage::Sending(i) => ExchangeRequestView::Write(s.script[i as int].text),
        ExchangeStage::AwaitingLine(_) => ExchangeRequestView::ReadLine,
        ExchangeStage::AwaitingBlock(_, block) => ExchangeRequestView::ReadExact(
            block_wanted(block),
        ),
        ExchangeStage::Done(_) => ExchangeRequestView::Finished,
    }
}

/// The state after event `e` in state `s`.
///
/// A command that is written is followed by the reading of its answer, if it
/// has one, and else by the next command. A line that is read is followed by
/// the next command; what it says is not looked at. The bytes that are read
/// go to the block. Any failure on the session ends the acquisition in a
/// transport error, and so does an event that does not answer the request.
pub open spec fn exchange_step(s: ExchangeState, e: ExchangeEventView) -> ExchangeState {
    let failed = ExchangeStage::Done(Err(ErrorKind::Transport));
    s.at(
        match s.stage {
            ExchangeStage::Sending(i) => if e is Written {
                match s.script[i as int].reply {
                    Reply::Nothing => after_command(s.script, i),
                    Reply::Line => ExchangeStage::AwaitingLine(i),
                    Reply::Block => ExchangeStage::AwaitingBlock(i, BlockState::Prefix),
                }
            } else {
                failed
            },
            ExchangeStage::AwaitingLine(i) => if e is Line {
                after_command(s.script, i)
            } else {
                failed
            },
            ExchangeStage::AwaitingBlock(i, block) => match e {
                ExchangeEventView::Bytes(chunk) => after_chunk(
                    i,
                    block_step(block, chunk),
                    s.transfer,
                ),
                _ => failed,
            },
            ExchangeStage::Done(_) => s.stage,
        },
    )
}

/// A step leads from a well-formed state to a well-formed state.
pub proof fn lemma_exchange_keeps_well_formed(s: ExchangeState, e: ExchangeEventView)
    requires
        s.well_formed(),
    ensures
        exchange_step(s, e).well_formed(),
        exchange_step(s, e).script == s.script,
        exchange_step(s, e).transfer == s.transfer,
{
}

/// The state in which the acquisition of a channel starts.
pub open spec fn exchange_start(channel: u8, selector: Seq<u8>, token: Seq<u8>) -> ExchangeState {
    ExchangeState {
        script: command_script(channel, selector, token),
        transfer: if token == raw_token() {
            TransferType::Raw
        } else {
            TransferType::NonRaw
        },
        stage: ExchangeStage::Sending(0),
    }
}

/// The outcome that a state stands for: what the acquisition ended in, and
/// a transport error for one that was given up before its end.
pub open spec fn exchange_result(s: ExchangeState) -> Result<WaveformView, ErrorKind> {
    match s.stage {
        ExchangeStage::Done(r) => r,
        _ => Err(ErrorKind::Transport),
    }
}

#[derive(Debug)]
enum Stage {
    Sending(usize),
    AwaitingLine(usize),
    AwaitingBlock(usize, BlockReader),
    Done(Result<Waveform, ErrorKind>),
}

impl View for Stage {
    type V = ExchangeStage;

    closed spec fn view(&self) -> ExchangeStage {
        match self {
            Stage::Sending(i) => ExchangeStage::Sending(*i as nat),
            Stage::AwaitingLine(i) => ExchangeStage::AwaitingLine(*i as nat),
            Stage::AwaitingBlock(i, block) => ExchangeStage::AwaitingBlock(*i as nat, block@),
            Stage::Done(r) => ExchangeStage::Done(waveform_result_view(*r)),
        }
    }
}

/// One acquisition, as a state machine.
#[derive(Debug)]
pub struct Acquisition {
    script: Vec<Command>,
    transfer: TransferType,
    stage: Stage,
}

impl View for Acquisition {
    type V = ExchangeState;

    closed spec fn view(&self) -> ExchangeState {
        ExchangeState {
            script: script_view(self.script@),
            transfer: self.transfer,
            stage: self.stage@,
        }
    }
}

/// The stage that follows the command at index `i`.
fn stage_after_command(script: &Vec<Command>, i: usize) -> (next: Stage)
    requires
        i < script@.len(),
    ensures
        next@ == after_command(script_view(script@), i as nat),
{
    if i < script.len() - 1 {
        Stage::Sending(i + 1)
    } else {
        Stage::Done(Err(ErrorKind::Framing))
    }
}

/// The stage that follows a chunk.
fn stage_after_chunk(i: usize, block: BlockReader, transfer: TransferType) -> (next: Stage)
    ensures
        next@ == after_chunk(i as nat, block@, transfer),
{
    match block {
        BlockReader::Complete(body) => Stage::Done(decode_waveform(body.as_slice(), transfer)),
        BlockReader::Failed(e) => Stage::Done(Err(e)),
        other => Stage::AwaitingBlock(i, other),
    }
}

impl Acquisition {
    #[verifier::type_invariant]
    spec fn inv(self) -> bool {
        self@.well_formed()
    }

    /// Prepares the acquisition of one waveform from `channel`. A channel
    /// other than 1 to 4 is refused before anything is asked of the session.
    pub fn start(channel: u8, length_selector: &[u8], transfer_token: &[u8]) -> (r: Result<
        Acquisition,
        ErrorKind,
    >)
        ensures
            r is Ok <==> 1 <= channel <= 4,
            r is Ok ==> r->Ok_0@ == exchange_start(channel, length_selector@, transfer_token@),
            r is Err ==> r->Err_0 == ErrorKind::InvalidArgument,
    {
        let script = match command_sequence(channel, length_selector, transfer_token) {
            Ok(script) => script,
            Err(e) => {
                return Err(e);
            },
        };
        assert(script_view(script@).len() == 10);
        let transfer = TransferType::from_token(transfer_token);
        Ok(Acquisition { script, transfer, stage: Stage::Sending(0) })
    }

    /// The encoding in which the samples are asked for.
    pub fn transfer_type(&self) -> (tt: TransferType)
        ensures
            tt == self@.transfer,
    {
        self.transfer
    }

    /// Whether the acquisition has ended.
    pub fn is_finished(&self) -> (done: bool)
        ensures
            done == self@.finished(),
    {
        match &self.stage {
            Stage::Done(_) => true,
            _ => false,
        }
    }

    /// What to do on the session next.
    pub fn request(&self) -> (request: ExchangeRequest)
        ensures
            request@ == exchange_request(self@),
    {
        proof {
            use_type_invariant(self);
        }
        match &self.stage {
            Stage::Sending(i) => ExchangeRequest::Write(
                slice_to_vec(self.script[*i].text.as_slice()),
            ),
            Stage::AwaitingLine(_) => ExchangeRequest::ReadLine,
            Stage::AwaitingBlock(_, block) => ExchangeRequest::ReadExact(block.wanted()),
            Stage::Done(_) => ExchangeRequest::Finished,
        }
    }

    /// Takes what came of the last request and moves on.
    pub fn advance(self, event: ExchangeEvent) -> (next: Acquisition)
        ensures
            next@ == exchange_step(self@, event@),
    {
        proof {
            use_type_invariant(&self);
        }
        let Acquisition { script, transfer, stage } = self;
        let stage = match stage {
            Stage::Sending(i) => match event {
                ExchangeEvent::Written => match script[i].reply {
                    Reply::Nothing => stage_after_command(&script, i),
                    Reply::Line => Stage::AwaitingLine(i),
                    Reply::Block => Stage::AwaitingBlock(i, BlockReader::new()),
                },
                _ => Stage::Done(Err(ErrorKind::Transport)),
            },
            Stage::AwaitingLine(i) => match event {
                ExchangeEvent::Line(_) => stage_after_command(&script, i),
                _ => Stage::Done(Err(ErrorKind::Transport)),
            },
            Stage::AwaitingBlock(i, block) => match event {
                ExchangeEvent::Bytes(chunk) => stage_after_chunk(i, block.accept(chunk), transfer),
                _ => Stage::Done(Err(ErrorKind::Transport)),
            },
            Stage::Done(r) => Stage::Done(r),
        };
        Acquisition { script, transfer, stage }
    }

    /// The outcome of the acquisition: the waveform or the error. An
    /// acquisition that was given up before its end counts as a transport
    /// error.
    pub fn finish(self) -> (r: Result<Waveform, ErrorKind>)
        ensures
            waveform_result_view(r) == exchange_result(self@),
    {
        match self.stage {
            Stage::Done(r) => r,
            _ => Err(ErrorKind::Transport),
        }
    }
}

} // verus!
