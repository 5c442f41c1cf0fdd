//! The consensus messages that the log stores, and their mathematical views.

use vstd::prelude::*;
use crate::bytes::{bytes_copy, bytes_equal};

verus! {

/// The kind of a consensus message.
#[derive(Clone, Copy, Debug, PartialEq, Eq, Hash, Structural)]
pub enum PbftMessageType {
    PrePrepare,
    Prepare,
    Commit,
    BlockNew,
    Checkpoint,
    ViewChange,
}

/// How a message relates to the node's progress, as judged by the caller.
#[derive(Clone, Copy, Debug, PartialEq, Eq, Hash, Structural)]
pub enum PbftHint {
    FutureMessage,
    PastMessage,
    PresentMessage,
}

/// The block that a message pertains to. The log only compares blocks.
#[derive(Debug, PartialEq, Eq, Hash)]
pub struct PbftBlock {
    pub block_id: Vec<u8>,
    pub signer_id: Vec<u8>,
    pub block_num: u64,
    pub summary: Vec<u8>,
}

/// What a [`PbftBlock`] holds.
pub ghost struct BlockView {
    pub block_id: Seq<u8>,
    pub signer_id: Seq<u8>,
    pub block_num: u64,
    pub summary: Seq<u8>,
}

impl View for PbftBlock {
    type V = BlockView;

    open spec fn view(&self) -> BlockView {
        BlockView {
            block_id: self.block_id@,
            signer_id: self.signer_id@,
            block_num: self.block_num,
            summary: self.summary@,
        }
    }
}

impl Clone for PbftBlock {
    fn clone(&self) -> (copy: Self)
        ensures
            copy@ == self@,
    {
        PbftBlock {
            block_id: bytes_copy(&self.block_id),
            signer_id: bytes_copy(&self.signer_id),
            block_num: self.block_num,
            summary: bytes_copy(&self.summary),
        }
    }
}

impl PbftBlock {
    /// Whether two blocks hold the same content.
    pub fn same_as(&self, other: &PbftBlock) -> (same: bool)
        ensures
            same == (self@ == other@),
    {
        bytes_equal(&self.block_id, &other.block_id)
            && bytes_equal(&self.signer_id, &other.signer_id)
            && self.block_num == other.block_num
            && bytes_equal(&self.summary, &other.summary)
    }
}

/// The header of a consensus message.
#[derive(Debug, PartialEq, Eq, Hash)]
pub struct PbftMessageInfo {
    pub msg_type: PbftMessageType,
    pub view: u64,
    pub seq_num: u64,
    pub signer_id: Vec<u8>,
}

/// What a [`PbftMessageInfo`] holds.
pub ghost struct InfoView {
    pub msg_type: PbftMessageType,
    pub view: u64,
    pub seq_num: u64,
    pub signer_id: Seq<u8>,
}

impl View for PbftMessageInfo {
    type V = InfoView;

    open spec fn view(&self) -> InfoView {
        InfoView {
            msg_type: self.msg_type,
            view: self.view,
            seq_num: self.seq_num,
            signer_id: self.signer_id@,
        }
    }
}

impl Clone for PbftMessageInfo {
    fn clone(&self) -> (copy: Self)
        ensures
            copy@ == self@,
    {
        PbftMessageInfo {
            msg_type: self.msg_type,
            view: self.view,
            seq_num: self.seq_num,
            signer_id: bytes_copy(&self.signer_id),
        }
    }
}

impl PbftMessageInfo {
    /// Whether two headers hold the same content.
    pub fn same_as(&self, other: &PbftMessageInfo) -> (same: bool)
        ensures
            same == (self@ == other@),
    {
        self.msg_type == other.msg_type
            && self.view == other.view
            && self.seq_num == other.seq_num
            && bytes_equal(&self.signer_id, &other.signer_id)
    }
}

/// A consensus message as it travels between nodes: a header and a block.
#[derive(Debug, PartialEq, Eq, Hash)]
pub struct PbftMessage {
    pub info: PbftMessageInfo,
    pub block: PbftBlock,
}

/// What a [`PbftMessage`] holds.
pub ghost struct WireView {
    pub info: InfoView,
    pub block: BlockView,
}

impl View for PbftMessage {
    type V = WireView;

    open spec fn view(&self) -> WireView {
        WireView { info: self.info@, block: self.block@ }
    }
}

impl Clone for PbftMessage {
    fn clone(&self) -> (copy: Self)
        ensures
            copy@ == self@,
    {
        PbftMessage { info: self.info.clone(), block: self.block.clone() }
    }
}

/// A log entry: a message together with the note whether this node wrote it.
#[derive(Debug, PartialEq, Eq, Hash)]
pub struct ParsedMessage {
    pub from_self: bool,
    pub message: PbftMessage,
}

/// What a [`ParsedMessage`] holds. Two entries are the same entry exactly
/// when their views are equal.
pub ghost struct MessageView {
    pub info: InfoView,
    pub block: BlockView,
    pub from_self: bool,
}

impl MessageView {
    /// The message without the note on its author.
    pub open spec fn wire(self) -> WireView {
        WireView { info: self.info, block: self.block }
    }
}

impl View for ParsedMessage {
    type V = MessageView;

    open spec fn view(&self) -> MessageView {
        MessageView {
            info: self.message.info@,
            block: self.message.block@,
            from_self: self.from_self,
        }
    }
}

impl Clone for ParsedMessage {
    fn clone(&self) -> (copy: Self)
        ensures
            copy@ == self@,
    {
        ParsedMessage { from_self: self.from_self, message: self.message.clone() }
    }
}

impl ParsedMessage {
    /// Wraps a message received from a peer.
    pub fn from_pbft_message(message: PbftMessage) -> (entry: Self)
        ensures
            entry@.wire() == message@,
            !entry@.from_self,
            entry.message == message,
    {
        ParsedMessage { from_self: false, message }
    }

    /// The header of the message.
    pub fn info(&self) -> (info: &PbftMessageInfo)
        ensures
            info@ == self@.info,
            *info == self.message.info,
    {
        &self.message.info
    }

    /// The block of the message.
    pub fn get_block(&self) -> (block: &PbftBlock)
        ensures
            block@ == self@.block,
            *block == self.message.block,
    {
        &self.message.block
    }

    /// The message as it travelled.
    pub fn get_pbft_message(&self) -> (message: &PbftMessage)
        ensures
            message@ == self@.wire(),
            *message == self.message,
    {
        &self.message
    }

    /// Whether two entries are the same entry.
    pub fn same_as(&self, other: &ParsedMessage) -> (same: bool)
        ensures
            same == (self@ == other@),
    {
        self.from_self == other.from_self
            && self.message.info.same_as(&other.message.info)
            && self.message.block.same_as(&other.message.block)
    }
}

/// A block as the validator announces it.
#[derive(Debug, PartialEq, Eq, Hash)]
pub struct Block {
    pub block_id: Vec<u8>,
    pub previous_id: Vec<u8>,
    pub signer_id: Vec<u8>,
    pub block_num: u64,
    pub payload: Vec<u8>,
    pub summary: Vec<u8>,
}

/// What a [`Block`] holds.
pub ghost struct AnnouncedBlockView {
    pub block_id: Seq<u8>,
    pub previous_id: Seq<u8>,
    pub signer_id: Seq<u8>,
    pub block_num: u64,
    pub payload: Seq<u8>,
    pub summary: Seq<u8>,
}

impl View for Block {
    type V = AnnouncedBlockView;

    open spec fn view(&self) -> AnnouncedBlockView {
        AnnouncedBlockView {
            block_id: self.block_id@,
            previous_id: self.previous_id@,
            signer_id: self.signer_id@,
            block_num: self.block_num,
            payload: self.payload@,
            summary: self.summary@,
        }
    }
}

impl Clone for Block {
    fn clone(&self) -> (copy: Self)
        ensures
            copy@ == self@,
    {
        Block {
            block_id: bytes_copy(&self.block_id),
            previous_id: bytes_copy(&self.previous_id),
            signer_id: bytes_copy(&self.signer_id),
            block_num: self.block_num,
            payload: bytes_copy(&self.payload),
            summary: bytes_copy(&self.summary),
        }
    }
}

/// The views of a sequence of entries, in order.
pub open spec fn message_views(entries: Seq<ParsedMessage>) -> Seq<MessageView> {
    entries.map_values(|m: ParsedMessage| m@)
}

/// The views of a sequence of messages, in order.
pub open spec fn wire_views(messages: Seq<PbftMessage>) -> Seq<WireView> {
    messages.map_values(|m: PbftMessage| m@)
}

/// The views of a sequence of announced blocks, in order.
pub open spec fn block_views(blocks: Seq<Block>) -> Seq<AnnouncedBlockView> {
    blocks.map_values(|b: Block| b@)
}

/// The views of a sequence of borrowed entries, in order.
pub open spec fn entry_views(entries: Seq<&ParsedMessage>) -> Seq<MessageView> {
    entries.map_values(|m: &ParsedMessage| m@)
}

} // verus!
