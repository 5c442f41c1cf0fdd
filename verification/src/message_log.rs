//! The message log: admission into the window, the quorum predicates,
//! checkpoints with compaction, and the backlog queues.

use std::collections::VecDeque;
use vstd::prelude::*;
use crate::config::PbftConfig;
use crate::error::{ErrorView, PbftError};
use crate::grouping::{group_by_key, sorted_by_key, values_with_key};
use crate::laws::lemma_collect_keeps_window;
use crate::message::{
    block_views, entry_views, message_views, wire_views, AnnouncedBlockView, Block, BlockView,
    InfoView, MessageView, ParsedMessage, PbftHint, PbftMessage, PbftMessageInfo, PbftMessageType,
    WireView,
};
use crate::render::{log_text, render_log};

verus! {

/// The latest stable checkpoint: its sequence number and the Checkpoint
/// messages that certify it.
pub struct PbftStableCheckpoint {
    pub seq_num: u64,
    pub checkpoint_messages: Vec<PbftMessage>,
}

/// What a [`PbftStableCheckpoint`] holds.
pub ghost struct CheckpointView {
    pub seq_num: u64,
    pub checkpoint_messages: Seq<WireView>,
}

impl View for PbftStableCheckpoint {
    type V = CheckpointView;

    open spec fn view(&self) -> CheckpointView {
        CheckpointView {
            seq_num: self.seq_num,
            checkpoint_messages: wire_views(self.checkpoint_messages@),
        }
    }
}

impl Clone for PbftStableCheckpoint {
    fn clone(&self) -> (copy: Self)
        ensures
            copy@ == self@,
    {
        let mut checkpoint_messages: Vec<PbftMessage> = Vec::new();
        let mut i: usize = 0;
        while i < self.checkpoint_messages.len()
            invariant
                i <= self.checkpoint_messages.len(),
                checkpoint_messages@.len() == i,
                forall|j: int|
                    0 <= j < i ==> (#[trigger] checkpoint_messages@[j])@
                        == self.checkpoint_messages@[j]@,
            decreases self.checkpoint_messages.len() - i,
        {
            checkpoint_messages.push(self.checkpoint_messages[i].clone());
            i += 1;
        }
        assert(wire_views(checkpoint_messages@) =~= wire_views(self.checkpoint_messages@));
        PbftStableCheckpoint { seq_num: self.seq_num, checkpoint_messages }
    }
}

/// Whether messages of this kind are admitted whatever their view.
pub open spec fn view_agnostic(kind: PbftMessageType) -> bool {
    kind == PbftMessageType::Checkpoint || kind == PbftMessageType::ViewChange
}

/// The entries of the given kind and sequence number, in the order in which
/// they were stored.
pub open spec fn of_type_seq(
    entries: Seq<MessageView>,
    kind: PbftMessageType,
    seq_num: u64,
) -> Seq<MessageView> {
    entries.filter(|m: MessageView| m.info.msg_type == kind && m.info.seq_num == seq_num)
}

/// The entries of the given kind, sequence number and view, in the order in
/// which they were stored.
pub open spec fn of_type_seq_view(
    entries: Seq<MessageView>,
    kind: PbftMessageType,
    seq_num: u64,
    view: u64,
) -> Seq<MessageView> {
    entries.filter(
        |m: MessageView|
            m.info.msg_type == kind && m.info.seq_num == seq_num && m.info.view == view,
    )
}

/// Those of the given messages that pertain to the given block.
pub open spec fn sharing_block(messages: Seq<MessageView>, block: BlockView) -> Seq<MessageView> {
    messages.filter(|m: MessageView| m.block == block)
}

/// Whether the entries hold at least `required` messages of the given kind at
/// the sequence number and view of `reference`, counting only those on its
/// block where `check_block` is set.
pub open spec fn has_required(
    entries: Seq<MessageView>,
    kind: PbftMessageType,
    reference: MessageView,
    check_block: bool,
    required: int,
) -> bool {
    let found = of_type_seq_view(entries, kind, reference.info.seq_num, reference.info.view);
    if check_block {
        sharing_block(found, reference.block).len() >= required
    } else {
        found.len() >= required
    }
}

/// The entries that a compaction at `stable` keeps: those at or above it,
/// and none at sequence number 0.
pub open spec fn retained(entries: Seq<MessageView>, stable: u64) -> Seq<MessageView> {
    entries.filter(|m: MessageView| m.info.seq_num >= stable && m.info.seq_num > 0)
}

/// The Checkpoint messages stored at the given sequence number and view, as
/// they travelled.
pub open spec fn certificate(entries: Seq<MessageView>, stable: u64, view: u64) -> Seq<WireView> {
    of_type_seq_view(entries, PbftMessageType::Checkpoint, stable, view).map_values(
        |m: MessageView| m.wire(),
    )
}

/// The entries of the given kind and sequence number that other nodes
/// wrote, in the order in which they were stored.
pub open spec fn votes(
    entries: Seq<MessageView>,
    kind: PbftMessageType,
    seq_num: u64,
) -> Seq<MessageView> {
    entries.filter(
        |m: MessageView| m.info.msg_type == kind && m.info.seq_num == seq_num && !m.from_self,
    )
}

/// Those of the given messages that are of the given view.
pub open spec fn in_view(messages: Seq<MessageView>, view: u64) -> Seq<MessageView> {
    messages.filter(|m: MessageView| m.info.view == view)
}

/// Whether other nodes wrote at least one and at least `minimum` of the
/// entries of the given kind, sequence number and view.
pub open spec fn view_has_enough(
    entries: Seq<MessageView>,
    kind: PbftMessageType,
    seq_num: u64,
    minimum: u64,
    view: u64,
) -> bool {
    let count = in_view(votes(entries, kind, seq_num), view).len();
    count > 0 && count >= minimum
}

/// Whether `view` is the highest view with enough entries of other nodes.
pub open spec fn is_seal_view(
    entries: Seq<MessageView>,
    kind: PbftMessageType,
    seq_num: u64,
    minimum: u64,
    view: u64,
) -> bool {
    &&& view_has_enough(entries, kind, seq_num, minimum, view)
    &&& forall|other: u64| #[trigger]
        view_has_enough(entries, kind, seq_num, minimum, other) ==> other <= view
}

/// The state of a log.
pub ghost struct LogView {
    /// The stored messages, oldest first.
    pub entries: Seq<MessageView>,
    pub low_water_mark: u64,
    pub high_water_mark: u64,
    pub max_log_size: u64,
    /// The BlockNew messages stored since the last compaction.
    pub cycles: u64,
    pub checkpoint_period: u64,
    /// The deferred messages, the next to leave first.
    pub backlog: Seq<MessageView>,
    /// The deferred block announcements, the next to leave first.
    pub block_backlog: Seq<AnnouncedBlockView>,
    pub latest_stable_checkpoint: Option<CheckpointView>,
}

impl LogView {
    /// What every log satisfies: the window is `max_log_size` wide, no entry
    /// is stored twice, the store fits in memory, and the cycle counter
    /// counts stored entries.
    pub open spec fn wf(self) -> bool {
        &&& self.high_water_mark == self.low_water_mark + self.max_log_size
        &&& self.entries.no_duplicates()
        &&& self.entries.len() <= usize::MAX
        &&& self.cycles <= self.entries.len()
    }

    /// The log of a node that has seen nothing yet.
    pub open spec fn empty(max_log_size: u64, checkpoint_period: u64) -> LogView {
        LogView {
            entries: Seq::empty(),
            low_water_mark: 0,
            high_water_mark: max_log_size,
            max_log_size,
            cycles: 0,
            checkpoint_period,
            backlog: Seq::empty(),
            block_backlog: Seq::empty(),
            latest_stable_checkpoint: None,
        }
    }

    /// Whether every stored message lies in the window.
    pub open spec fn within_window(self) -> bool {
        forall|i: int|
            0 <= i < self.entries.len() ==> self.low_water_mark <= (
            #[trigger] self.entries[i]).info.seq_num < self.high_water_mark
    }

    /// Whether `add_message` stores `m`, unless the log holds it already.
    pub open spec fn admits(self, m: MessageView, current_view: u64) -> bool {
        &&& self.low_water_mark <= m.info.seq_num < self.high_water_mark
        &&& (view_agnostic(m.info.msg_type) || m.info.view == current_view)
    }

    /// The log after `add_message`.
    pub open spec fn after_add(self, m: MessageView, current_view: u64) -> LogView {
        if !self.admits(m, current_view) || self.entries.contains(m) {
            self
        } else {
            LogView {
                entries: self.entries.push(m),
                cycles: if m.info.msg_type == PbftMessageType::BlockNew {
                    (self.cycles + 1) as u64
                } else {
                    self.cycles
                },
                ..self
            }
        }
    }

    /// The log after `add_message_with_hint`.
    pub open spec fn after_hint(self, m: MessageView, hint: PbftHint, current_view: u64) -> LogView {
        match hint {
            PbftHint::FutureMessage => LogView { backlog: self.backlog.push(m), ..self },
            PbftHint::PastMessage => self.after_add(m, current_view),
            PbftHint::PresentMessage => self,
        }
    }

    /// The log after `garbage_collect`.
    pub open spec fn after_collect(self, stable: u64, view: u64) -> LogView {
        LogView {
            entries: retained(self.entries, stable),
            low_water_mark: stable,
            high_water_mark: (stable + self.max_log_size) as u64,
            cycles: 0,
            latest_stable_checkpoint: Some(
                CheckpointView {
                    seq_num: stable,
                    checkpoint_messages: certificate(self.entries, stable, view),
                },
            ),
            ..self
        }
    }

    /// The sequence number of the latest stable checkpoint, 0 before the
    /// first.
    pub open spec fn latest_checkpoint(self) -> u64 {
        match self.latest_stable_checkpoint {
            Some(checkpoint) => checkpoint.seq_num,
            None => 0,
        }
    }

    /// Whether a checkpoint is due.
    pub open spec fn checkpoint_due(self) -> bool {
        self.cycles >= self.checkpoint_period
    }

    /// Whether a BlockNew and a PrePrepare are stored at the sequence number
    /// and view of `info`.
    pub open spec fn has_proposal(self, info: InfoView) -> bool {
        &&& of_type_seq_view(
            self.entries,
            PbftMessageType::BlockNew,
            info.seq_num,
            info.view,
        ).len() > 0
        &&& of_type_seq_view(
            self.entries,
            PbftMessageType::PrePrepare,
            info.seq_num,
            info.view,
        ).len() > 0
    }

    /// The oldest BlockNew at the sequence number and view of `info`.
    pub open spec fn block_new(self, info: InfoView) -> MessageView
        recommends
            self.has_proposal(info),
    {
        of_type_seq_view(self.entries, PbftMessageType::BlockNew, info.seq_num, info.view)[0]
    }

    /// The oldest PrePrepare at the sequence number and view of `info`.
    pub open spec fn pre_prepare(self, info: InfoView) -> MessageView
        recommends
            self.has_proposal(info),
    {
        of_type_seq_view(self.entries, PbftMessageType::PrePrepare, info.seq_num, info.view)[0]
    }

    /// Whether the BlockNew and the PrePrepare at the sequence number and
    /// view of `info` name different blocks.
    pub open spec fn block_mismatch(self, info: InfoView) -> bool {
        self.has_proposal(info) && self.block_new(info).block != self.pre_prepare(info).block
    }

    /// The prepared predicate: a BlockNew and a PrePrepare on one block, and
    /// `2f + 1` Prepare messages that match the PrePrepare.
    pub open spec fn prepared(self, info: InfoView, f: u64) -> bool {
        &&& self.has_proposal(info)
        &&& self.block_new(info).block == self.pre_prepare(info).block
        &&& has_required(
            self.entries,
            PbftMessageType::Prepare,
            self.pre_prepare(info),
            true,
            2 * f + 1,
        )
    }

    /// The committable predicate: prepared, and `2f + 1` Commit messages that
    /// match the PrePrepare.
    pub open spec fn committable(self, info: InfoView, f: u64) -> bool {
        &&& self.prepared(info, f)
        &&& has_required(
            self.entries,
            PbftMessageType::Commit,
            self.pre_prepare(info),
            true,
            2 * f + 1,
        )
    }
}

/// The messages that a PBFT node has accepted or put aside.
pub struct PbftLog {
    /// The stored messages, oldest first; none occurs twice.
    messages: Vec<ParsedMessage>,
    /// The window of sequence numbers that the log admits.
    low_water_mark: u64,
    high_water_mark: u64,
    /// The width of the window.
    max_log_size: u64,
    /// The BlockNew messages stored since the last compaction.
    cycles: u64,
    /// How many cycles lie between two checkpoints.
    checkpoint_period: u64,
    /// Messages from peers that are ahead of this node.
    backlog: VecDeque<ParsedMessage>,
    /// Block announcements that cannot be handled yet.
    block_backlog: VecDeque<Block>,
    /// The most recent checkpoint, with the messages that certify it.
    pub latest_stable_checkpoint: Option<PbftStableCheckpoint>,
}

impl View for PbftLog {
    type V = LogView;

    closed spec fn view(&self) -> LogView {
        LogView {
            entries: message_views(self.messages@),
            low_water_mark: self.low_water_mark,
            high_water_mark: self.high_water_mark,
            max_log_size: self.max_log_size,
            cycles: self.cycles,
            checkpoint_period: self.checkpoint_period,
            backlog: message_views(self.backlog@),
            block_backlog: block_views(self.block_backlog@),
            latest_stable_checkpoint: match self.latest_stable_checkpoint {
                Some(checkpoint) => Some(checkpoint@),
                None => None,
            },
        }
    }
}

impl PbftLog {
    /// An empty log whose window starts at sequence number 0.
    pub fn new(config: &PbftConfig) -> (log: Self)
        ensures
            log@.wf(),
            log@.within_window(),
            log@ == LogView::empty(config.max_log_size, config.checkpoint_period),
    {
        let log = PbftLog {
            messages: Vec::new(),
            low_water_mark: 0,
            cycles: 0,
            checkpoint_period: config.checkpoint_period,
            high_water_mark: config.max_log_size,
            max_log_size: config.max_log_size,
            backlog: VecDeque::new(),
            block_backlog: VecDeque::new(),
            latest_stable_checkpoint: None,
        };
        assert(log@.entries =~= Seq::empty());
        assert(log@.backlog =~= Seq::empty());
        assert(log@.block_backlog =~= Seq::empty());
        log
    }

    /// Whether the log holds this entry.
    fn holds(&self, msg: &ParsedMessage) -> (held: bool)
        ensures
            held == self@.entries.contains(msg@),
    {
        let mut i: usize = 0;
        while i < self.messages.len()
            invariant
                i <= self.messages.len(),
                forall|j: int| 0 <= j < i ==> self@.entries[j] != msg@,
            decreases self.messages.len() - i,
        {
            if self.messages[i].same_as(msg) {
                assert(self@.entries[i as int] == msg@);
                return true;
            }
            i += 1;
        }
        false
    }

    /// Stores the entry unless the log holds it already, and says whether it
    /// was stored.
    fn insert(&mut self, msg: ParsedMessage) -> (inserted: bool)
        ensures
            inserted == !old(self)@.entries.contains(msg@),
            final(self)@ == (LogView {
                entries: if inserted {
                    old(self)@.entries.push(msg@)
                } else {
                    old(self)@.entries
                },
                ..old(self)@
            }),
    {
        if self.holds(&msg) {
            return false;
        }
        self.messages.push(msg);
        assert(self@.entries =~= old(self)@.entries.push(msg@));
        true
    }

    /// Stores a message if its sequence number lies in the window and, unless
    /// it is a Checkpoint or a ViewChange, its view is the node's current one.
    /// A message that is not admitted is dropped. Storing a BlockNew that the
    /// log did not hold counts one cycle.
    pub fn add_message(&mut self, msg: ParsedMessage, current_view: u64)
        requires
            old(self)@.wf(),
        ensures
            final(self)@.wf(),
            final(self)@ == old(self)@.after_add(msg@, current_view),
            old(self)@.within_window() ==> final(self)@.within_window(),
    {
        if msg.info().seq_num >= self.high_water_mark || msg.info().seq_num < self.low_water_mark {
            return;
        }
        // Except for Checkpoints and ViewChanges, the message must be for the
        // current view to be accepted
        let msg_type = msg.info().msg_type;
        if msg_type != PbftMessageType::Checkpoint && msg_type != PbftMessageType::ViewChange
            && msg.info().view != current_view {
            return;
        }
        let ghost before = self@;
        let inserted = self.insert(msg);
        if msg_type == PbftMessageType::BlockNew && inserted {
            assert(self.messages.len() == before.entries.len() + 1);
            self.cycles += 1;
        }
        proof {
            assert(self@.entries.len() == self.messages.len());
            if inserted {
                assert(before.entries.push(msg@).no_duplicates());
            }
        }
    }

    /// All stored messages of the given kind and sequence number, whatever
    /// their view, oldest first.
    pub fn get_messages_of_type_seq(
        &self,
        msg_type: &PbftMessageType,
        sequence_number: u64,
    ) -> (found: Vec<&ParsedMessage>)
        ensures
            entry_views(found@) == of_type_seq(self@.entries, *msg_type, sequence_number),
    {
        let mut found: Vec<&ParsedMessage> = Vec::new();
        let mut i: usize = 0;
        assert(self@.entries.take(0) =~= Seq::empty());
        assert(entry_views(found@) =~= Seq::empty());
        while i < self.messages.len()
            invariant
                i <= self.messages.len(),
                entry_views(found@) == of_type_seq(
                    self@.entries.take(i as int),
                    *msg_type,
                    sequence_number,
                ),
            decreases self.messages.len() - i,
        {
            let msg = &self.messages[i];
            let ghost before = found@;
            let info = msg.info();
            if info.msg_type == *msg_type && info.seq_num == sequence_number {
                found.push(msg);
                assert(entry_views(found@) =~= entry_views(before).push(msg@));
            }
            proof {
                let entries = self@.entries;
                assert(entries.take(i as int + 1).drop_last() =~= entries.take(i as int));
                assert(entries.take(i as int + 1).last() == msg@);
                reveal(Seq::filter);
            }
            i += 1;
        }
        assert(self@.entries.take(i as int) =~= self@.entries);
        found
    }

    /// All stored messages of the given kind, sequence number and view,
    /// oldest first.
    pub fn get_messages_of_type_seq_view(
        &self,
        msg_type: &PbftMessageType,
        sequence_number: u64,
        view: u64,
    ) -> (found: Vec<&ParsedMessage>)
        ensures
            entry_views(found@) == of_type_seq_view(
                self@.entries,
                *msg_type,
                sequence_number,
                view,
            ),
    {
        let mut found: Vec<&ParsedMessage> = Vec::new();
        let mut i: usize = 0;
        assert(self@.entries.take(0) =~= Seq::empty());
        assert(entry_views(found@) =~= Seq::empty());
        while i < self.messages.len()
            invariant
                i <= self.messages.len(),
                entry_views(found@) == of_type_seq_view(
                    self@.entries.take(i as int),
                    *msg_type,
                    sequence_number,
                    view,
                ),
            decreases self.messages.len() - i,
        {
            let msg = &self.messages[i];
            let ghost before = found@;
            let info = msg.info();
            if info.msg_type == *msg_type && info.seq_num == sequence_number && info.view
                == view {
                found.push(msg);
                assert(entry_views(found@) =~= entry_views(before).push(msg@));
            }
            proof {
                let entries = self@.entries;
                assert(entries.take(i as int + 1).drop_last() =~= entries.take(i as int));
                assert(entries.take(i as int + 1).last() == msg@);
                reveal(Seq::filter);
            }
            i += 1;
        }
        assert(self@.entries.take(i as int) =~= self@.entries);
        found
    }

    /// The oldest stored message of the given kind at the sequence number and
    /// view of `info`, if there is one.
    pub fn get_one_msg(&self, info: &PbftMessageInfo, msg_type: &PbftMessageType) -> (one: Option<
        &ParsedMessage,
    >)
        ensures
            one is Some <==> of_type_seq_view(
                self@.entries,
                *msg_type,
                info.seq_num,
                info.view,
            ).len() > 0,
            one is Some ==> one.unwrap()@ == of_type_seq_view(
                self@.entries,
                *msg_type,
                info.seq_num,
                info.view,
            )[0],
    {
        let msgs = self.get_messages_of_type_seq_view(msg_type, info.seq_num, info.view);
        if msgs.len() > 0 {
            assert(entry_views(msgs@)[0] == msgs@[0]@);
            Some(msgs[0])
        } else {
            None
        }
    }

    /// Whether the log holds at least `required` messages of the given kind
    /// at the sequence number and view of `ref_msg`, counting only those on
    /// its block where `check_block` is set.
    pub fn log_has_required_msgs(
        &self,
        msg_type: &PbftMessageType,
        ref_msg: &ParsedMessage,
        check_block: bool,
        required: u64,
    ) -> (enough: bool)
        ensures
            enough == has_required(
                self@.entries,
                *msg_type,
                ref_msg@,
                check_block,
                required as int,
            ),
    {
        let msgs = self.get_messages_of_type_seq_view(
            msg_type,
            ref_msg.info().seq_num,
            ref_msg.info().view,
        );
        if !check_block {
            return msgs.len() as u64 >= required;
        }
        let ghost found = entry_views(msgs@);
        let mut count: usize = 0;
        let mut i: usize = 0;
        assert(found.take(0) =~= Seq::empty());
        while i < msgs.len()
            invariant
                found == entry_views(msgs@),
                i <= msgs.len(),
                count <= i,
                count == sharing_block(found.take(i as int), ref_msg@.block).len(),
            decreases msgs.len() - i,
        {
            if msgs[i].get_block().same_as(ref_msg.get_block()) {
                count += 1;
            }
            proof {
                assert(found.take(i as int + 1).drop_last() =~= found.take(i as int));
                assert(found.take(i as int + 1).last() == msgs@[i as int]@);
                reveal(Seq::filter);
            }
            i += 1;
        }
        assert(found.take(i as int) =~= found);
        count as u64 >= required
    }

    /// The prepared predicate for the sequence number and view of `info`,
    /// with `f` the number of faulty nodes that the network tolerates.
    ///
    /// `Ok(false)` while the BlockNew or the PrePrepare is missing; the error
    /// `BlockMismatch` where the two name different blocks; else whether
    /// `2f + 1` Prepare messages match the PrePrepare.
    pub fn check_prepared(&self, info: &PbftMessageInfo, f: u64) -> (prepared: Result<
        bool,
        PbftError,
    >)
        ensures
            match prepared {
                Ok(holds) => !self@.block_mismatch(info@) && holds == self@.prepared(info@, f),
                Err(fault) => self@.block_mismatch(info@) && fault@ == ErrorView::BlockMismatch(
                    self@.block_new(info@).block,
                    self@.pre_prepare(info@).block,
                ),
            },
    {
        // Check if we have both BlockNew and PrePrepare
        let block_new_msg = self.get_one_msg(info, &PbftMessageType::BlockNew);
        let preprep_msg = self.get_one_msg(info, &PbftMessageType::PrePrepare);
        match (block_new_msg, preprep_msg) {
            (Some(block_new_msg), Some(preprep_msg)) => {
                // Ensure BlockNew and PrePrepare match
                if !block_new_msg.get_block().same_as(preprep_msg.get_block()) {
                    return Err(
                        PbftError::BlockMismatch(
                            block_new_msg.get_block().clone(),
                            preprep_msg.get_block().clone(),
                        ),
                    );
                }
                // Check if we have 2f + 1 matching Prepares
                Ok(self.has_quorum(&PbftMessageType::Prepare, preprep_msg, f))
            },
            _ => Ok(false),
        }
    }

    /// Whether `2f + 1` stored messages of the given kind match the sequence
    /// number, view and block of `ref_msg`.
    fn has_quorum(&self, msg_type: &PbftMessageType, ref_msg: &ParsedMessage, f: u64) -> (enough:
        bool)
        ensures
            enough == has_required(self@.entries, *msg_type, ref_msg@, true, 2 * f + 1),
    {
        if f > (u64::MAX - 1) / 2 {
            // More messages than a log can hold.
            proof {
                let found = of_type_seq_view(
                    self@.entries,
                    *msg_type,
                    ref_msg@.info.seq_num,
                    ref_msg@.info.view,
                );
                self@.entries.lemma_filter_len(
                    |m: MessageView|
                        m.info.msg_type == *msg_type && m.info.seq_num == ref_msg@.info.seq_num
                            && m.info.view == ref_msg@.info.view,
                );
                found.lemma_filter_len(|m: MessageView| m.block == ref_msg@.block);
                assert(self@.entries.len() == self.messages.len());
            }
            return false;
        }
        self.log_has_required_msgs(msg_type, ref_msg, true, 2 * f + 1)
    }

    /// The committable predicate for the sequence number and view of `info`:
    /// prepared, and `2f + 1` Commit messages match the PrePrepare.
    pub fn check_committable(&self, info: &PbftMessageInfo, f: u64) -> (committable: Result<
        bool,
        PbftError,
    >)
        ensures
            match committable {
                Ok(holds) => !self@.block_mismatch(info@) && holds == self@.committable(
                    info@,
                    f,
                ),
                Err(fault) => self@.block_mismatch(info@) && fault@ == ErrorView::BlockMismatch(
                    self@.block_new(info@).block,
                    self@.pre_prepare(info@).block,
                ),
            },
    {
        // Check if Prepared predicate is true
        match self.check_prepared(info, f) {
            Err(fault) => Err(fault),
            Ok(false) => Ok(false),
            Ok(true) => {
                // Check if we have 2f + 1 matching Commits
                match self.get_one_msg(info, &PbftMessageType::PrePrepare) {
                    Some(preprep_msg) => Ok(
                        self.has_quorum(&PbftMessageType::Commit, preprep_msg, f),
                    ),
                    None => Ok(false),
                }
            },
        }
    }

    /// The messages for a seal: of the stored messages of the given kind and
    /// sequence number that other nodes wrote, those of the highest view
    /// that has at least `minimum` of them, oldest first; `None` where no
    /// view has that many, or none at all.
    pub fn get_enough_messages(
        &self,
        msg_type: &PbftMessageType,
        sequence_number: u64,
        minimum: u64,
    ) -> (enough: Option<Vec<&ParsedMessage>>)
        ensures
            match enough {
                Some(msgs) => exists|view: u64|
                    #![trigger is_seal_view(self@.entries, *msg_type, sequence_number, minimum, view)]
                    is_seal_view(self@.entries, *msg_type, sequence_number, minimum, view)
                        && entry_views(msgs@) == in_view(
                        votes(self@.entries, *msg_type, sequence_number),
                        view,
                    ),
                None => forall|view: u64|
                    !#[trigger] view_has_enough(
                        self@.entries,
                        *msg_type,
                        sequence_number,
                        minimum,
                        view,
                    ),
            },
    {
        let ghost entries = self@.entries;
        let mut cast: Vec<&ParsedMessage> = Vec::new();
        let mut keyed: Vec<(u64, usize)> = Vec::new();
        let mut i: usize = 0;
        assert(entries.take(0) =~= Seq::empty());
        assert(entry_views(cast@) =~= Seq::empty());
        while i < self.messages.len()
            invariant
                i <= self.messages.len(),
                entries == self@.entries,
                entry_views(cast@) == votes(entries.take(i as int), *msg_type, sequence_number),
                keyed@.len() == cast@.len(),
                cast@.len() <= i,
                forall|j: int|
                    0 <= j < keyed@.len() ==> (#[trigger] keyed@[j]).0 == cast@[j]@.info.view
                        && keyed@[j].1 == j,
            decreases self.messages.len() - i,
        {
            let msg = &self.messages[i];
            let ghost before = cast@;
            let info = msg.info();
            let same_type = info.msg_type == *msg_type;
            let same_seq = info.seq_num == sequence_number;
            if same_type && same_seq && !msg.from_self {
                keyed.push((info.view, cast.len()));
                cast.push(msg);
                assert(entry_views(cast@) =~= entry_views(before).push(msg@));
            }
            proof {
                assert(entries.take(i as int + 1).drop_last() =~= entries.take(i as int));
                assert(entries.take(i as int + 1).last() == msg@);
                reveal(Seq::filter);
            }
            i += 1;
        }
        assert(entries.take(i as int) =~= entries);
        let ghost cast_views = entry_views(cast@);
        let ghost pairs = keyed@;
        assert forall|j: int| 0 <= j < pairs.len() implies (#[trigger] pairs[j]).0
            == cast_views[j].info.view && pairs[j].1 == j by {}

        let groups = group_by_key(keyed);
        let ghost grouped = groups@;
        let sorted = sorted_by_key(groups);
        match last_with_enough(&sorted, minimum) {
            Some(g) => {
                let group = &sorted[g];
                let ghost view = group.0;
                proof {
                    lemma_group_is_filter(pairs, cast_views, view);
                    assert(grouped.contains_key(view));
                    assert forall|other: u64| #[trigger]
                        view_has_enough(
                            entries,
                            *msg_type,
                            sequence_number,
                            minimum,
                            other,
                        ) implies other <= view by {
                        lemma_group_is_filter(pairs, cast_views, other);
                        assert(grouped.contains_key(other));
                        let at = choose|at: int|
                            0 <= at < sorted@.len() && (#[trigger] sorted@[at]).0 == other;
                        assert(at <= g);
                    }
                    assert(is_seal_view(entries, *msg_type, sequence_number, minimum, view));
                }
                let msgs = pick(&cast, &group.1);
                assert(entry_views(msgs@) =~= in_view(cast_views, view));
                Some(msgs)
            },
            None => {
                proof {
                    assert forall|view: u64|
                        !#[trigger] view_has_enough(
                            entries,
                            *msg_type,
                            sequence_number,
                            minimum,
                            view,
                        ) by {
                        lemma_group_is_filter(pairs, cast_views, view);
                        if in_view(cast_views, view).len() > 0 {
                            assert(grouped.contains_key(view));
                            let at = choose|at: int|
                                0 <= at < sorted@.len() && (#[trigger] sorted@[at]).0 == view;
                            assert(sorted@[at].1.len() < minimum);
                        }
                    }
                }
                None
            },
        }
    }

    /// The sequence number of the latest stable checkpoint, 0 before the
    /// first.
    pub fn get_latest_checkpoint(&self) -> (seq_num: u64)
        ensures
            seq_num == self@.latest_checkpoint(),
    {
        if let Some(ref cp) = self.latest_stable_checkpoint {
            cp.seq_num
        } else {
            0
        }
    }

    /// Whether the node is ready for a checkpoint.
    pub fn at_checkpoint(&self) -> (due: bool)
        ensures
            due == self@.checkpoint_due(),
    {
        self.cycles >= self.checkpoint_period
    }

    /// Describes the log for a reader: a heading with the window, then one
    /// line for each stored message, oldest first.
    pub fn render(&self) -> (text: String)
        ensures
            text@ == log_text(self@.low_water_mark, self@.high_water_mark, self@.entries),
    {
        render_log(self.low_water_mark, self.high_water_mark, &self.messages)
    }

    /// The lowest sequence number that the log admits.
    pub fn low_water_mark(&self) -> (low: u64)
        ensures
            low == self@.low_water_mark,
    {
        self.low_water_mark
    }

    /// The lowest sequence number above the window.
    pub fn high_water_mark(&self) -> (high: u64)
        ensures
            high == self@.high_water_mark,
    {
        self.high_water_mark
    }

    /// The width of the window.
    pub fn max_log_size(&self) -> (width: u64)
        ensures
            width == self@.max_log_size,
    {
        self.max_log_size
    }

    /// How many BlockNew messages were stored since the last compaction.
    pub fn cycles(&self) -> (cycles: u64)
        ensures
            cycles == self@.cycles,
    {
        self.cycles
    }

    /// Moves the window to `stable_checkpoint`, records the Checkpoint
    /// messages stored at that sequence number and `view` as the latest
    /// stable checkpoint in place of any earlier one, and drops every
    /// message below `stable_checkpoint` or at sequence number 0.
    pub fn garbage_collect(&mut self, stable_checkpoint: u64, view: u64)
        requires
            old(self)@.wf(),
            stable_checkpoint + old(self)@.max_log_size <= u64::MAX,
        ensures
            final(self)@.wf(),
            final(self)@ == old(self)@.after_collect(stable_checkpoint, view),
            old(self)@.within_window() && stable_checkpoint >= old(self)@.low_water_mark
                ==> final(self)@.within_window(),
    {
        let ghost entries = self@.entries;
        self.low_water_mark = stable_checkpoint;
        self.high_water_mark = self.low_water_mark + self.max_log_size;
        self.cycles = 0;

        // Update the stable checkpoint
        let found = self.get_messages_of_type_seq_view(
            &PbftMessageType::Checkpoint,
            stable_checkpoint,
            view,
        );
        let mut cp_msgs: Vec<PbftMessage> = Vec::new();
        let mut i: usize = 0;
        while i < found.len()
            invariant
                i <= found.len(),
                cp_msgs@.len() == i,
                forall|j: int| 0 <= j < i ==> cp_msgs@[j]@ == (#[trigger] found@[j])@.wire(),
            decreases found.len() - i,
        {
            cp_msgs.push(found[i].get_pbft_message().clone());
            i += 1;
        }
        assert(wire_views(cp_msgs@) =~= entry_views(found@).map_values(
            |m: MessageView| m.wire(),
        ));
        let cp = PbftStableCheckpoint { seq_num: stable_checkpoint, checkpoint_messages: cp_msgs };
        self.latest_stable_checkpoint = Some(cp);

        // Filter out all old messages (up to but not including the checkpoint)
        let mut kept: Vec<ParsedMessage> = Vec::new();
        let mut k: usize = 0;
        assert(entries.take(0) =~= Seq::empty());
        assert(message_views(kept@) =~= Seq::empty());
        while k < self.messages.len()
            invariant
                k <= self.messages.len(),
                entries == message_views(self.messages@),
                message_views(kept@) == retained(entries.take(k as int), stable_checkpoint),
            decreases self.messages.len() - k,
        {
            let msg = &self.messages[k];
            let ghost before = kept@;
            let seq_num = msg.info().seq_num;
            if seq_num >= stable_checkpoint && seq_num > 0 {
                kept.push(msg.clone());
                assert(message_views(kept@) =~= message_views(before).push(msg@));
            }
            proof {
                assert(entries.take(k as int + 1).drop_last() =~= entries.take(k as int));
                assert(entries.take(k as int + 1).last() == msg@);
                reveal(Seq::filter);
            }
            k += 1;
        }
        assert(entries.take(k as int) =~= entries);
        self.messages = kept;
        proof {
            lemma_filter_no_duplicates(
                entries,
                |m: MessageView| m.info.seq_num >= stable_checkpoint && m.info.seq_num > 0,
            );
            entries.lemma_filter_len(
                |m: MessageView| m.info.seq_num >= stable_checkpoint && m.info.seq_num > 0,
            );
            if old(self)@.within_window() && stable_checkpoint >= old(self)@.low_water_mark {
                lemma_collect_keeps_window(old(self)@, stable_checkpoint, view);
            }
        }
    }

    /// Puts a message at the tail of the message backlog.
    pub fn push_backlog(&mut self, msg: ParsedMessage)
        ensures
            final(self)@ == (LogView { backlog: old(self)@.backlog.push(msg@), ..old(self)@ }),
    {
        self.backlog.push_back(msg);
        assert(self@.backlog =~= old(self)@.backlog.push(msg@));
    }

    /// Takes the message at the head of the message backlog, if there is one.
    pub fn pop_backlog(&mut self) -> (head: Option<ParsedMessage>)
        ensures
            match head {
                Some(msg) => old(self)@.backlog.len() > 0 && msg@ == old(self)@.backlog[0]
                    && final(self)@ == (LogView {
                    backlog: old(self)@.backlog.drop_first(),
                    ..old(self)@
                }),
                None => old(self)@.backlog.len() == 0 && final(self)@ == old(self)@,
            },
    {
        let head = self.backlog.pop_front();
        assert(head is Some ==> self@.backlog =~= old(self)@.backlog.drop_first());
        head
    }

    /// Puts a block announcement at the tail of the block backlog.
    pub fn push_block_backlog(&mut self, msg: Block)
        ensures
            final(self)@ == (LogView {
                block_backlog: old(self)@.block_backlog.push(msg@),
                ..old(self)@
            }),
    {
        self.block_backlog.push_back(msg);
        assert(self@.block_backlog =~= old(self)@.block_backlog.push(msg@));
    }

    /// Takes the block announcement at the head of the block backlog, if
    /// there is one.
    pub fn pop_block_backlog(&mut self) -> (head: Option<Block>)
        ensures
            match head {
                Some(block) => old(self)@.block_backlog.len() > 0 && block@
                    == old(self)@.block_backlog[0] && final(self)@ == (LogView {
                    block_backlog: old(self)@.block_backlog.drop_first(),
                    ..old(self)@
                }),
                None => old(self)@.block_backlog.len() == 0 && final(self)@ == old(self)@,
            },
    {
        let head = self.block_backlog.pop_front();
        assert(head is Some ==> self@.block_backlog =~= old(self)@.block_backlog.drop_first());
        head
    }

    /// Files a message according to the caller's judgement of it. A future
    /// message goes to the backlog and a past one into the log, both with
    /// the signal `NotReadyForMessage`; a present one is left to the caller,
    /// who adds it after its own checks.
    pub fn add_message_with_hint(
        &mut self,
        msg: ParsedMessage,
        hint: &PbftHint,
        current_view: u64,
    ) -> (filed: Result<(), PbftError>)
        requires
            old(self)@.wf(),
        ensures
            final(self)@.wf(),
            final(self)@ == old(self)@.after_hint(msg@, *hint, current_view),
            old(self)@.within_window() ==> final(self)@.within_window(),
            filed is Ok <==> *hint == PbftHint::PresentMessage,
            filed is Err ==> filed.unwrap_err()@ == ErrorView::NotReadyForMessage,
    {
        match hint {
            PbftHint::FutureMessage => {
                self.push_backlog(msg);
                Err(PbftError::NotReadyForMessage)
            },
            PbftHint::PastMessage => {
                self.add_message(msg, current_view);
                Err(PbftError::NotReadyForMessage)
            },
            PbftHint::PresentMessage => Ok(()),
        }
    }
}

/// The place of the last group that holds at least `minimum` values.
fn last_with_enough(sorted: &Vec<(u64, Vec<usize>)>, minimum: u64) -> (last: Option<usize>)
    ensures
        match last {
            Some(g) => g < sorted@.len() && sorted@[g as int].1.len() >= minimum && forall|j: int|
                g < j < sorted@.len() ==> (#[trigger] sorted@[j]).1.len() < minimum,
            None => forall|j: int|
                0 <= j < sorted@.len() ==> (#[trigger] sorted@[j]).1.len() < minimum,
        },
{
    let mut g: usize = sorted.len();
    while g > 0
        invariant
            g <= sorted.len(),
            forall|j: int| g <= j < sorted@.len() ==> (#[trigger] sorted@[j]).1.len() < minimum,
        decreases g,
    {
        g -= 1;
        if sorted[g].1.len() as u64 >= minimum {
            return Some(g);
        }
    }
    None
}

/// The messages at the given places, in the order of the places.
fn pick<'a>(messages: &Vec<&'a ParsedMessage>, places: &Vec<usize>) -> (picked: Vec<
    &'a ParsedMessage,
>)
    requires
        forall|u: int| 0 <= u < places@.len() ==> (#[trigger] places@[u]) < messages@.len(),
    ensures
        picked@.len() == places@.len(),
        forall|u: int|
            0 <= u < places@.len() ==> (#[trigger] picked@[u]) == messages@[places@[u] as int],
{
    let mut picked: Vec<&ParsedMessage> = Vec::new();
    let mut t: usize = 0;
    while t < places.len()
        invariant
            t <= places.len(),
            picked@.len() == t,
            forall|u: int| 0 <= u < places@.len() ==> (#[trigger] places@[u]) < messages@.len(),
            forall|u: int| 0 <= u < t ==> (#[trigger] picked@[u]) == messages@[places@[u] as int],
        decreases places.len() - t,
    {
        picked.push(messages[places[t]]);
        t += 1;
    }
    picked
}

/// Where each message is paired with its view and its place, the places
/// grouped under a view are those of the messages of that view, in order.
pub proof fn lemma_group_is_filter(pairs: Seq<(u64, usize)>, messages: Seq<MessageView>, view: u64)
    requires
        pairs.len() == messages.len(),
        forall|i: int|
            0 <= i < pairs.len() ==> (#[trigger] pairs[i]).0 == messages[i].info.view
                && pairs[i].1 == i,
    ensures
        values_with_key(pairs, view).len() == in_view(messages, view).len(),
        forall|t: int|
            0 <= t < values_with_key(pairs, view).len() ==> (#[trigger] values_with_key(
                pairs,
                view,
            )[t]) < messages.len() && messages[values_with_key(pairs, view)[t] as int] == in_view(
                messages,
                view,
            )[t],
    decreases pairs.len(),
{
    reveal(Seq::filter);
    if pairs.len() > 0 {
        lemma_group_is_filter(pairs.drop_last(), messages.drop_last(), view);
    }
}

/// Filtering a sequence in which nothing occurs twice gives such a sequence.
pub proof fn lemma_filter_no_duplicates<A>(s: Seq<A>, pred: spec_fn(A) -> bool)
    requires
        s.no_duplicates(),
    ensures
        s.filter(pred).no_duplicates(),
    decreases s.len(),
{
    reveal(Seq::filter);
    if s.len() > 0 {
        let rest = s.drop_last();
        lemma_filter_no_duplicates(rest, pred);
        if pred(s.last()) {
            if rest.filter(pred).contains(s.last()) {
                rest.lemma_filter_contains_rev(pred, s.last());
                let j = choose|j: int| 0 <= j < rest.len() && rest[j] == s.last();
                assert(s[j] == s[s.len() - 1]);
            }
        }
    }
}

} // verus!
