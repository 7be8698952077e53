//! What an acquisition comes to, stated against a model of the session: on a
//! session that takes every command and answers every query, the commands go
//! out in the script's order and the outcome is that of the block that
//! answers the last of them; on any other session it is a transport error.

use crate::acquisition::{
    exchange_result, exchange_start, exchange_step, reply_outcome, ExchangeEventView,
    ExchangeStage, ExchangeState,
};
use crate::block::{
    block_finished, block_step, block_wanted, chunks_left, lemma_reader_follows_format,
    lemma_step_progress, run_from, BlockState,
};
use crate::commands::{channel_is_valid, CommandView, Reply};
use crate::error::ErrorKind;
use crate::samples::{waveform_outcome, WaveformView};
use vstd::prelude::*;

verus! {

/// A session as the exchange meets it.
pub struct Session {
    /// Whether the write of the command at an index succeeds.
    pub takes: spec_fn(nat) -> bool,
    /// The line that is read after the command at an index, if the read succeeds.
    pub line: spec_fn(nat) -> Option<Seq<u8>>,
    /// The bytes that the instrument sends in answer to the block request.
    pub stream: Seq<u8>,
}

impl Session {
    /// Whether the command at index `i` goes out and, if it is answered by a
    /// line, the line comes back.
    pub open spec fn serves(self, script: Seq<CommandView>, i: nat) -> bool {
        (self.takes)(i) && (script[i as int].reply == Reply::Line ==> (self.line)(i) is Some)
    }

    /// Whether the session serves every command of the script from index `from` on.
    pub open spec fn serves_from(self, script: Seq<CommandView>, from: nat) -> bool {
        forall|i: nat| from <= i < script.len() ==> self.serves(script, i)
    }
}

/// The event with which the session answers the request of state `s`, where
/// `at` bytes of the stream have been read.
pub open spec fn event_for(s: ExchangeState, at: nat, session: Session) -> ExchangeEventView {
    match s.stage {
        ExchangeStage::Sending(i) => if (session.takes)(i) {
            ExchangeEventView::Written
        } else {
            ExchangeEventView::Failed
        },
        ExchangeStage::AwaitingLine(i) => match (session.line)(i) {
            Some(line) => ExchangeEventView::Line(line),
            None => ExchangeEventView::Failed,
        },
        ExchangeStage::AwaitingBlock(_, block) => if at + block_wanted(block)
            <= session.stream.len() {
            ExchangeEventView::Bytes(
                session.stream.subrange(at as int, (at + block_wanted(block)) as int),
            )
        } else {
            ExchangeEventView::Failed
        },
        ExchangeStage::Done(_) => ExchangeEventView::Failed,
    }
}

/// The number of bytes of the stream that are read once the request of state
/// `s` is answered.
pub open spec fn offset_after(s: ExchangeState, at: nat, session: Session) -> nat {
    match s.stage {
        ExchangeStage::AwaitingBlock(_, block) => if at + block_wanted(block)
            <= session.stream.len() {
            at + block_wanted(block)
        } else {
            at
        },
        _ => at,
    }
}

/// The bytes that go out when the request of state `s` is answered: the
/// command's, where it is a write that succeeds.
pub open spec fn written_by(s: ExchangeState, session: Session) -> Seq<Seq<u8>> {
    match s.stage {
        ExchangeStage::Sending(i) => if (session.takes)(i) {
            seq![s.script[i as int].text]
        } else {
            Seq::empty()
        },
        _ => Seq::empty(),
    }
}

/// The number of commands that a state has not yet left behind.
pub open spec fn commands_left(s: ExchangeState) -> nat {
    match s.stage {
        ExchangeStage::Sending(i) => (s.script.len() - i) as nat,
        ExchangeStage::AwaitingLine(i) => (s.script.len() - i) as nat,
        ExchangeStage::AwaitingBlock(i, _) => (s.script.len() - i) as nat,
        ExchangeStage::Done(_) => 0,
    }
}

/// 1 while the command in hand is still to be written, 0 after it.
pub open spec fn writes_left(s: ExchangeState) -> nat {
    if s.stage is Sending {
        1
    } else {
        0
    }
}

/// The number of chunks that the block in hand is away from its end at most.
pub open spec fn block_chunks_left(s: ExchangeState) -> nat {
    match s.stage {
        ExchangeStage::AwaitingBlock(_, block) => chunks_left(block),
        _ => 0,
    }
}

/// Where an acquisition ends that is in state `s` on `session` with `at`
/// bytes of the stream read: the state it ends in, and the writes that went
/// out on the way, in order.
pub open spec fn exchange_run(s: ExchangeState, at: nat, session: Session) -> (
    ExchangeState,
    Seq<Seq<u8>>,
)
    decreases commands_left(s), writes_left(s), block_chunks_left(s),
{
    if s.finished() || !s.well_formed() {
        (s, Seq::empty())
    } else {
        let rest = exchange_run(
            exchange_step(s, event_for(s, at, session)),
            offset_after(s, at, session),
            session,
        );
        (rest.0, written_by(s, session) + rest.1)
    }
}

/// The texts of the commands of a script from index `from` on, in order.
pub open spec fn texts_from(script: Seq<CommandView>, from: nat) -> Seq<Seq<u8>> {
    Seq::new((script.len() - from) as nat, |k: int| script[from + k].text)
}

/// The outcome in which a state of the block's reading ends an acquisition.
pub open spec fn block_end(block: BlockState, s: ExchangeState) -> Result<WaveformView, ErrorKind> {
    match block {
        BlockState::Complete(body) => waveform_outcome(body, s.transfer),
        BlockState::Failed(e) => Err(e),
        _ => Err(ErrorKind::Transport),
    }
}

/// While the block is read nothing is written, and the acquisition ends as
/// the reading of the block over the rest of the stream ends.
proof fn lemma_block_run(s: ExchangeState, at: nat, session: Session)
    requires
        s.well_formed(),
        s.stage is AwaitingBlock,
    ensures
        exchange_run(s, at, session).1 == Seq::<Seq<u8>>::empty(),
        exchange_run(s, at, session).0.stage is Done,
        exchange_result(exchange_run(s, at, session).0) == block_end(
            run_from(s.stage->AwaitingBlock_1, session.stream, at).0,
            s,
        ),
    decreases block_chunks_left(s),
{
    reveal_with_fuel(exchange_run, 2);
    reveal_with_fuel(run_from, 2);
    let block = s.stage->AwaitingBlock_1;
    let next = exchange_step(s, event_for(s, at, session));
    if at + block_wanted(block) <= session.stream.len() {
        let chunk = session.stream.subrange(at as int, (at + block_wanted(block)) as int);
        let stepped = block_step(block, chunk);
        lemma_step_progress(block, chunk);
        if !block_finished(stepped) {
            lemma_block_run(next, at + block_wanted(block), session);
        }
        assert(exchange_run(s, at, session).1 =~= Seq::<Seq<u8>>::empty());
    } else {
        assert(exchange_run(s, at, session).1 =~= Seq::<Seq<u8>>::empty());
    }
}

/// What an acquisition comes to from the command at index `from` on.
proof fn lemma_run_from_command(
    channel: u8,
    selector: Seq<u8>,
    token: Seq<u8>,
    from: nat,
    session: Session,
)
    requires
        channel_is_valid(channel),
        from < 10,
    ensures
        ({
            let start = exchange_start(channel, selector, token);
            let end = exchange_run(start.at(ExchangeStage::Sending(from)), 0, session);
            if session.serves_from(start.script, from) {
                &&& exchange_result(end.0) == reply_outcome(session.stream, start.transfer)
                &&& end.1 == texts_from(start.script, from)
            } else {
                exchange_result(end.0) == Err::<WaveformView, ErrorKind>(ErrorKind::Transport)
            }
        }),
    decreases 10 - from,
{
    reveal_with_fuel(exchange_run, 3);
    let start = exchange_start(channel, selector, token);
    let script = start.script;
    let s0 = start.at(ExchangeStage::Sending(from));
    let s1 = exchange_step(s0, event_for(s0, 0, session));
    assert(script.len() == 10);
    assert(script[9].reply == Reply::Block);
    if !(session.takes)(from) {
        assert(!session.serves(script, from));
        assert(exchange_run(s1, 0, session).0 == s1);
    } else {
        let mine = seq![script[from as int].text];
        match script[from as int].reply {
            Reply::Nothing => {
                assert(s1.stage == ExchangeStage::Sending(from + 1));
                lemma_run_from_command(channel, selector, token, from + 1, session);
                lemma_serves_step(session, script, from);
                assert(mine + texts_from(script, from + 1) =~= texts_from(script, from));
            },
            Reply::Line => {
                assert(s1.stage == ExchangeStage::AwaitingLine(from));
                let s2 = exchange_step(s1, event_for(s1, 0, session));
                if (session.line)(from) is Some {
                    assert(s2.stage == ExchangeStage::Sending(from + 1));
                    lemma_run_from_command(channel, selector, token, from + 1, session);
                    lemma_serves_step(session, script, from);
                    assert(exchange_run(s1, 0, session).1 =~= exchange_run(s2, 0, session).1);
                    assert(mine + texts_from(script, from + 1) =~= texts_from(script, from));
                } else {
                    assert(!session.serves(script, from));
                    assert(exchange_run(s2, 0, session).0 == s2);
                }
            },
            Reply::Block => {
                assert(from == 9);
                assert(s1.stage == ExchangeStage::AwaitingBlock(from, BlockState::Prefix));
                lemma_block_run(s1, 0, session);
                lemma_reader_follows_format(session.stream);
                assert(session.serves_from(script, from));
                assert(exchange_run(s0, 0, session).1 =~= mine);
                assert(mine =~= texts_from(script, from));
            },
        }
    }
}

/// A session serves a script from an index on where it serves the command
/// at the index and the script behind it.
proof fn lemma_serves_step(session: Session, script: Seq<CommandView>, from: nat)
    requires
        from < script.len(),
    ensures
        session.serves_from(script, from) <==> session.serves(script, from) && session.serves_from(
            script,
            from + 1,
        ),
{
    if session.serves(script, from) && session.serves_from(script, from + 1) {
        assert forall|i: nat| from <= i < script.len() implies session.serves(script, i) by {
            if i > from {
                assert(from + 1 <= i);
            }
        }
    }
}

/// On a session that takes every command and answers every query with a
/// line, the acquisition writes the commands of the script, all of them and
/// in order, and ends in what the instrument's answer to the last comes to:
/// the decoded waveform, or the error of its framing or decoding. On a
/// session that fails a write or a line, it ends in a transport error.
pub proof fn lemma_acquisition_outcome(
    channel: u8,
    selector: Seq<u8>,
    token: Seq<u8>,
    session: Session,
)
    requires
        channel_is_valid(channel),
    ensures
        ({
            let start = exchange_start(channel, selector, token);
            let end = exchange_run(start, 0, session);
            if session.serves_from(start.script, 0) {
                &&& exchange_result(end.0) == reply_outcome(session.stream, start.transfer)
                &&& end.1 == Seq::new(10, |i: int| start.script[i].text)
            } else {
                exchange_result(end.0) == Err::<WaveformView, ErrorKind>(ErrorKind::Transport)
            }
        }),
{
    let start = exchange_start(channel, selector, token);
    lemma_run_from_command(channel, selector, token, 0, session);
    assert(start.at(ExchangeStage::Sending(0)) == start);
    assert(texts_from(start.script, 0) =~= Seq::new(10, |i: int| start.script[i].text));
}

} // verus!
