//! The text that describes a log to a reader: its window, and one line for
//! each stored message.

use vstd::prelude::*;
use crate::message::{
    message_views, InfoView, MessageView, ParsedMessage, PbftMessageInfo, PbftMessageType,
};

verus! {

/// `String::push_str` appends the given text.
pub assume_specification[ String::push_str ](text: &mut String, string: &str)
    ensures
        final(text)@ == old(text)@ + string@,
;

/// `String::push` appends the given character.
pub assume_specification[ String::push ](text: &mut String, ch: char)
    ensures
        final(text)@ == old(text)@.push(ch),
;

/// The sixteen digits of lower-case hexadecimal text.
pub open spec fn hex_digits() -> Seq<char> {
    seq!['0', '1', '2', '3', '4', '5', '6', '7', '8', '9', 'a', 'b', 'c', 'd', 'e', 'f']
}

/// The bytes in lower-case hexadecimal, two digits for each byte.
pub open spec fn hex_text(bytes: Seq<u8>) -> Seq<char>
    decreases bytes.len(),
{
    if bytes.len() == 0 {
        Seq::empty()
    } else {
        hex_text(bytes.drop_last()).push(hex_digits()[(bytes.last() / 16) as int]).push(
            hex_digits()[(bytes.last() % 16) as int],
        )
    }
}

/// `hex::encode` on a byte string.
///
/// Trusted: the text holds two lower-case hexadecimal digits for each byte,
/// the high half first, in the order of the bytes.
#[verifier::external_body]
pub(crate) fn hex_encode(bytes: &Vec<u8>) -> (text: String)
    ensures
        text@ == hex_text(bytes@),
{
    hex::encode(bytes)
}

/// The ten decimal digits.
pub open spec fn decimal_digits() -> Seq<char> {
    seq!['0', '1', '2', '3', '4', '5', '6', '7', '8', '9']
}

/// The number in decimal, without leading zeros.
pub open spec fn decimal_text(n: nat) -> Seq<char>
    decreases n,
{
    if n < 10 {
        seq![decimal_digits()[n as int]]
    } else {
        decimal_text(n / 10).push(decimal_digits()[(n % 10) as int])
    }
}

/// The character of a decimal digit.
fn decimal_digit(d: u64) -> (c: char)
    requires
        d < 10,
    ensures
        c == decimal_digits()[d as int],
{
    match d {
        0 => '0',
        1 => '1',
        2 => '2',
        3 => '3',
        4 => '4',
        5 => '5',
        6 => '6',
        7 => '7',
        8 => '8',
        _ => '9',
    }
}

/// Appends the number in decimal.
pub fn push_decimal(text: &mut String, n: u64)
    ensures
        final(text)@ == old(text)@ + decimal_text(n as nat),
    decreases n,
{
    if n >= 10 {
        push_decimal(text, n / 10);
    }
    text.push(decimal_digit(n % 10));
    proof {
        let start = old(text)@;
        if n >= 10 {
            assert(text@ =~= start + decimal_text(n as nat));
        } else {
            assert(text@ =~= start + decimal_text(n as nat));
        }
    }
}

/// The name of a message kind.
pub open spec fn kind_text(kind: PbftMessageType) -> Seq<char> {
    match kind {
        PbftMessageType::PrePrepare => "PrePrepare"@,
        PbftMessageType::Prepare => "Prepare"@,
        PbftMessageType::Commit => "Commit"@,
        PbftMessageType::BlockNew => "BlockNew"@,
        PbftMessageType::Checkpoint => "Checkpoint"@,
        PbftMessageType::ViewChange => "ViewChange"@,
    }
}

/// The name of a message kind.
pub fn kind_name(kind: PbftMessageType) -> (name: &'static str)
    ensures
        name@ == kind_text(kind),
{
    match kind {
        PbftMessageType::PrePrepare => "PrePrepare",
        PbftMessageType::Prepare => "Prepare",
        PbftMessageType::Commit => "Commit",
        PbftMessageType::BlockNew => "BlockNew",
        PbftMessageType::Checkpoint => "Checkpoint",
        PbftMessageType::ViewChange => "ViewChange",
    }
}

/// The line that describes a message: its kind, view, sequence number and
/// signer.
pub open spec fn info_text(info: InfoView) -> Seq<char> {
    "    { "@ + kind_text(info.msg_type) + ", view: "@ + decimal_text(info.view as nat)
        + ", seq: "@ + decimal_text(info.seq_num as nat) + ", signer: "@ + hex_text(
        info.signer_id,
    ) + " }"@
}

/// Appends the line that describes a message.
pub fn push_info(text: &mut String, info: &PbftMessageInfo)
    ensures
        final(text)@ == old(text)@ + info_text(info@),
{
    text.push_str("    { ");
    text.push_str(kind_name(info.msg_type));
    text.push_str(", view: ");
    push_decimal(text, info.view);
    text.push_str(", seq: ");
    push_decimal(text, info.seq_num);
    text.push_str(", signer: ");
    let signer = hex_encode(&info.signer_id);
    text.push_str(signer.as_str());
    text.push_str(" }");
    assert(text@ =~= old(text)@ + info_text(info@));
}

/// The lines of the messages, in order, with a line break between two.
pub open spec fn listing_text(entries: Seq<MessageView>) -> Seq<char>
    decreases entries.len(),
{
    if entries.len() == 0 {
        Seq::empty()
    } else if entries.len() == 1 {
        info_text(entries[0].info)
    } else {
        listing_text(entries.drop_last()) + "\n"@ + info_text(entries.last().info)
    }
}

/// The description of a log: a heading with the window, then the lines of
/// the stored messages.
pub open spec fn log_text(low: u64, high: u64, entries: Seq<MessageView>) -> Seq<char> {
    "\nPbftLog ("@ + decimal_text(low as nat) + ", "@ + decimal_text(high as nat) + "):\n"@
        + listing_text(entries)
}

/// Describes a log with the given window and messages.
pub fn render_log(low: u64, high: u64, messages: &Vec<ParsedMessage>) -> (text: String)
    ensures
        text@ == log_text(low, high, message_views(messages@)),
{
    let ghost entries = message_views(messages@);
    let mut text = String::new();
    text.push_str("\nPbftLog (");
    push_decimal(&mut text, low);
    text.push_str(", ");
    push_decimal(&mut text, high);
    text.push_str("):\n");
    let ghost heading = text@;
    assert(heading =~= "\nPbftLog ("@ + decimal_text(low as nat) + ", "@ + decimal_text(
        high as nat,
    ) + "):\n"@);
    let mut i: usize = 0;
    assert(entries.take(0) =~= Seq::empty());
    assert(text@ =~= heading + listing_text(entries.take(0)));
    while i < messages.len()
        invariant
            i <= messages.len(),
            entries == message_views(messages@),
            text@ == heading + listing_text(entries.take(i as int)),
        decreases messages.len() - i,
    {
        let ghost before = text@;
        if i > 0 {
            text.push_str("\n");
        }
        push_info(&mut text, messages[i].info());
        proof {
            let done = entries.take(i as int + 1);
            assert(done.drop_last() =~= entries.take(i as int));
            assert(done.last().info == messages@[i as int]@.info);
            if i > 0 {
                assert(text@ =~= heading + listing_text(done));
            } else {
                assert(done[0] == done.last());
                assert(listing_text(entries.take(0)) =~= Seq::empty());
                assert(text@ =~= heading + listing_text(done));
            }
        }
        i += 1;
    }
    assert(entries.take(i as int) =~= entries);
    text
}

} // verus!
