//! The command lines that drive one acquisition, in the order in which they
//! go out.

use crate::error::ErrorKind;
use crate::wire::append_bytes;
use vstd::prelude::*;
use vstd::string::{is_ascii, is_ascii_spec_bytes, StringSliceAdditionalSpecFns};

verus! {

/// What the instrument sends back after a command.
#[derive(Clone, Copy, Debug, PartialEq, Eq, Structural)]
pub enum Reply {
    /// The command is not answered.
    Nothing,
    /// One line of text, up to and including its newline.
    Line,
    /// One definite-length block and its terminator.
    Block,
}

/// One step of the exchange: the bytes to write, and the answer to read
/// before the next step.
#[derive(Clone, Debug, PartialEq, Eq)]
pub struct Command {
    pub text: Vec<u8>,
    pub reply: Reply,
}

/// The mathematical content of a [`Command`].
pub struct CommandView {
    pub text: Seq<u8>,
    pub reply: Reply,
}

impl View for Command {
    type V = CommandView;

    open spec fn view(&self) -> CommandView {
        CommandView { text: self.text@, reply: self.reply }
    }
}

/// Whether `channel` names one of the instrument's four inputs.
pub open spec fn channel_is_valid(channel: u8) -> bool {
    1 <= channel <= 4
}

/// The channel's number as one ASCII digit.
pub open spec fn channel_digit(channel: u8) -> Seq<u8> {
    seq![(0x30 + channel) as u8]
}

/// The `i`-th, counted from 0, of the three channels other than `channel`,
/// in ascending order.
pub open spec fn other_channel(channel: u8, i: int) -> u8 {
    if i + 1 < channel {
        (i + 1) as u8
    } else {
        (i + 2) as u8
    }
}

/// `CHAN<k>:STATe 1` or `CHAN<k>:STATe 0`: switches a channel on or off.
pub open spec fn state_command(channel: u8, on: bool) -> CommandView {
    CommandView {
        text: "CHAN".spec_bytes() + channel_digit(channel) + if on {
            ":STATe 1\n".spec_bytes()
        } else {
            ":STATe 0\n".spec_bytes()
        },
        reply: Reply::Nothing,
    }
}

/// `RUN`: arms the instrument.
pub open spec fn run_command() -> CommandView {
    CommandView { text: "RUN\n".spec_bytes(), reply: Reply::Nothing }
}

/// `ACQuire:MDEPth 1000000`: asks for a memory depth of a million samples.
pub open spec fn depth_command() -> CommandView {
    CommandView { text: "ACQuire:MDEPth 1000000\n".spec_bytes(), reply: Reply::Nothing }
}

/// `ACQuire:MDEPth?`: asks which memory depth is in force; answered by a line.
pub open spec fn depth_query() -> CommandView {
    CommandView { text: "ACQuire:MDEPth?\n".spec_bytes(), reply: Reply::Line }
}

/// `CHAN<c>:DATa:TYPE <token>`: selects the sample encoding.
pub open spec fn type_command(channel: u8, token: Seq<u8>) -> CommandView {
    CommandView {
        text: "CHAN".spec_bytes() + channel_digit(channel) + ":DATa:TYPE ".spec_bytes() + token
            + "\n".spec_bytes(),
        reply: Reply::Nothing,
    }
}

/// `SEQuence:WAIT? 1`: answered by a line once one acquisition is complete.
pub open spec fn wait_query() -> CommandView {
    CommandView { text: "SEQuence:WAIT? 1\n".spec_bytes(), reply: Reply::Line }
}

/// `CHAN<c>:DATa:PACK? <selector>, <token>`: asks for the samples; answered
/// by a block.
pub open spec fn pack_query(channel: u8, selector: Seq<u8>, token: Seq<u8>) -> CommandView {
    CommandView {
        text: "CHAN".spec_bytes() + channel_digit(channel) + ":DATa:PACK? ".spec_bytes() + selector
            + ", ".spec_bytes() + token + "\n".spec_bytes(),
        reply: Reply::Block,
    }
}

/// The whole exchange for one channel: the channel on, the three others off
/// in ascending order, then run, memory depth, the depth query, the transfer
/// type, the wait, and the request for the block.
pub open spec fn command_script(channel: u8, selector: Seq<u8>, token: Seq<u8>) -> Seq<
    CommandView,
> {
    seq![
        state_command(channel, true),
        state_command(other_channel(channel, 0), false),
        state_command(other_channel(channel, 1), false),
        state_command(other_channel(channel, 2), false),
        run_command(),
        depth_command(),
        depth_query(),
        type_command(channel, token),
        wait_query(),
        pack_query(channel, selector, token),
    ]
}

/// What composing the exchange comes to: the script for a channel from 1 to
/// 4, and an argument error, with nothing to send, for any other.
pub open spec fn script_outcome(channel: u8, selector: Seq<u8>, token: Seq<u8>) -> Result<
    Seq<CommandView>,
    ErrorKind,
> {
    if channel_is_valid(channel) {
        Ok(command_script(channel, selector, token))
    } else {
        Err(ErrorKind::InvalidArgument)
    }
}

/// The views of a script's commands, in order.
pub open spec fn script_view(script: Seq<Command>) -> Seq<CommandView> {
    Seq::new(script.len(), |i: int| script[i]@)
}

/// A composed exchange with its commands taken by their views.
pub open spec fn script_result_view(r: Result<Vec<Command>, ErrorKind>) -> Result<
    Seq<CommandView>,
    ErrorKind,
> {
    match r {
        Ok(script) => Ok(script_view(script@)),
        Err(e) => Err(e),
    }
}

/// A command without an answer, made of `head`, the channel's digit and `tail`.
fn channel_command(head: &str, channel: u8, tail: &str, reply: Reply) -> (c: Command)
    requires
        channel_is_valid(channel),
    ensures
        c@.text == head.spec_bytes() + channel_digit(channel) + tail.spec_bytes(),
        c@.reply == reply,
{
    let mut text: Vec<u8> = Vec::new();
    append_bytes(&mut text, head.as_bytes());
    text.push(0x30 + channel);
    append_bytes(&mut text, tail.as_bytes());
    assert(text@ =~= head.spec_bytes() + channel_digit(channel) + tail.spec_bytes());
    Command { text, reply }
}

/// A command that is one fixed line.
fn fixed_command(line: &str, reply: Reply) -> (c: Command)
    ensures
        c@.text == line.spec_bytes(),
        c@.reply == reply,
{
    let mut text: Vec<u8> = Vec::new();
    append_bytes(&mut text, line.as_bytes());
    assert(text@ =~= line.spec_bytes());
    Command { text, reply }
}

/// Composes the exchange that acquires one waveform from `channel`. The
/// length selector and the transfer-type token go out as they are given.
pub fn command_sequence(channel: u8, length_selector: &[u8], transfer_token: &[u8]) -> (r: Result<
    Vec<Command>,
    ErrorKind,
>)
    ensures
        script_result_view(r) == script_outcome(channel, length_selector@, transfer_token@),
{
    if channel < 1 || channel > 4 {
        return Err(ErrorKind::InvalidArgument);
    }
    let mut script: Vec<Command> = Vec::new();
    script.push(channel_command("CHAN", channel, ":STATe 1\n", Reply::Nothing));
    let mut k: u8 = 1;
    while k <= 4
        invariant
            channel_is_valid(channel),
            1 <= k <= 5,
            script@.len() == (if k <= channel { k as int } else { k - 1 }),
            script@[0]@ == state_command(channel, true),
            forall|i: int|
                0 <= i < script@.len() - 1 ==> (#[trigger] script@[i + 1])@ == state_command(
                    other_channel(channel, i),
                    false,
                ),
        decreases 5 - k,
    {
        if k != channel {
            script.push(channel_command("CHAN", k, ":STATe 0\n", Reply::Nothing));
        }
        k += 1;
    }
    script.push(fixed_command("RUN\n", Reply::Nothing));
    script.push(fixed_command("ACQuire:MDEPth 1000000\n", Reply::Nothing));
    script.push(fixed_command("ACQuire:MDEPth?\n", Reply::Line));

    let mut type_line = channel_command("CHAN", channel, ":DATa:TYPE ", Reply::Nothing);
    append_bytes(&mut type_line.text, transfer_token);
    append_bytes(&mut type_line.text, "\n".as_bytes());
    assert(type_line@.text =~= type_command(channel, transfer_token@).text);
    script.push(type_line);

    script.push(fixed_command("SEQuence:WAIT? 1\n", Reply::Line));

    let mut pack_line = channel_command("CHAN", channel, ":DATa:PACK? ", Reply::Block);
    append_bytes(&mut pack_line.text, length_selector);
    append_bytes(&mut pack_line.text, ", ".as_bytes());
    append_bytes(&mut pack_line.text, transfer_token);
    append_bytes(&mut pack_line.text, "\n".as_bytes());
    assert(pack_line@.text =~= pack_query(channel, length_selector@, transfer_token@).text);
    script.push(pack_line);

    proof {
        let want = command_script(channel, length_selector@, transfer_token@);
        assert(script@.len() == 10);
        assert(script@[1]@ == want[1]);
        assert(script@[2]@ == want[2]);
        assert(script@[3]@ == want[3]);
        assert(script_view(script@) =~= want);
    }
    Ok(script)
}

/// The bytes of a text whose last character is a newline end in the byte 10.
proof fn lemma_line_ends_in_newline(line: &str)
    requires
        is_ascii(line),
        line@.len() > 0,
        line@.last() == '\n',
    ensures
        line.spec_bytes().len() > 0,
        line.spec_bytes().last() == 0x0a,
{
    is_ascii_spec_bytes(line);
}

/// Every command of the exchange carries its terminator: its last byte is a
/// newline, whatever the tokens hold.
pub proof fn lemma_commands_end_in_newline(channel: u8, selector: Seq<u8>, token: Seq<u8>)
    ensures
        forall|i: int|
            0 <= i < 10 ==> (#[trigger] command_script(channel, selector, token)[i]).text.len() > 0
                && command_script(channel, selector, token)[i].text.last() == 0x0a,
{
    reveal_strlit(":STATe 1\n");
    reveal_strlit(":STATe 0\n");
    reveal_strlit("RUN\n");
    reveal_strlit("ACQuire:MDEPth 1000000\n");
    reveal_strlit("ACQuire:MDEPth?\n");
    reveal_strlit("SEQuence:WAIT? 1\n");
    reveal_strlit("\n");
    lemma_line_ends_in_newline(":STATe 1\n");
    lemma_line_ends_in_newline(":STATe 0\n");
    lemma_line_ends_in_newline("RUN\n");
    lemma_line_ends_in_newline("ACQuire:MDEPth 1000000\n");
    lemma_line_ends_in_newline("ACQuire:MDEPth?\n");
    lemma_line_ends_in_newline("SEQuence:WAIT? 1\n");
    lemma_line_ends_in_newline("\n");
}

} // verus!
