//! What holds of every log, stated over its view and proved.

use vstd::prelude::*;
use crate::message::{InfoView, MessageView, PbftMessageType};
use crate::message_log::{of_type_seq_view, retained, sharing_block, view_agnostic, LogView};

verus! {

/// A message whose sequence number lies outside the window changes nothing.
pub proof fn lemma_outside_window_is_dropped(log: LogView, m: MessageView, current_view: u64)
    requires
        m.info.seq_num < log.low_water_mark || m.info.seq_num >= log.high_water_mark,
    ensures
        log.after_add(m, current_view) == log,
{
}

/// A message of another view than the node's changes nothing, unless it is
/// a Checkpoint or a ViewChange.
pub proof fn lemma_other_view_is_dropped(log: LogView, m: MessageView, current_view: u64)
    requires
        !view_agnostic(m.info.msg_type),
        m.info.view != current_view,
    ensures
        log.after_add(m, current_view) == log,
{
}

/// Adding a message keeps a log well formed, as long as the store fits in
/// memory.
pub proof fn lemma_add_keeps_wf(log: LogView, m: MessageView, current_view: u64)
    requires
        log.wf(),
        log.entries.len() < usize::MAX,
    ensures
        log.after_add(m, current_view).wf(),
{
}

/// Adding a message a second time changes nothing: neither the stored
/// messages nor the cycle counter.
pub proof fn lemma_add_is_idempotent(log: LogView, m: MessageView, current_view: u64)
    ensures
        log.after_add(m, current_view).after_add(m, current_view) == log.after_add(
            m,
            current_view,
        ),
{
    let once = log.after_add(m, current_view);
    if log.admits(m, current_view) && !log.entries.contains(m) {
        assert(once.entries.last() == m);
        assert(once.entries.contains(m));
    }
}

/// An admitted BlockNew that the log does not hold counts one cycle, and no
/// other message counts any.
pub proof fn lemma_cycles_count_new_block_news(log: LogView, m: MessageView, current_view: u64)
    requires
        log.wf(),
        log.entries.len() < usize::MAX,
    ensures
        log.after_add(m, current_view).cycles == if m.info.msg_type == PbftMessageType::BlockNew
            && log.admits(m, current_view) && !log.entries.contains(m) {
            log.cycles + 1
        } else {
            log.cycles as int
        },
        log.after_add(m, current_view).entries.len() == if log.admits(m, current_view)
            && !log.entries.contains(m) {
            log.entries.len() + 1
        } else {
            log.entries.len()
        },
{
}

/// Adding a message keeps every stored message in the window.
pub proof fn lemma_add_keeps_window(log: LogView, m: MessageView, current_view: u64)
    requires
        log.within_window(),
    ensures
        log.after_add(m, current_view).within_window(),
{
}

/// The prepared predicate holds only where the log stores a BlockNew and a
/// PrePrepare at the sequence number and view, both on one block, and at
/// least `2f + 1` Prepare messages there on that block.
pub proof fn lemma_prepared_needs_quorum(log: LogView, info: InfoView, f: u64)
    requires
        log.prepared(info, f),
    ensures
        exists|announced: MessageView, proposed: MessageView|
            {
                &&& #[trigger] log.entries.contains(announced)
                &&& #[trigger] log.entries.contains(proposed)
                &&& announced.info.msg_type == PbftMessageType::BlockNew
                &&& proposed.info.msg_type == PbftMessageType::PrePrepare
                &&& announced.info.seq_num == info.seq_num
                &&& proposed.info.seq_num == info.seq_num
                &&& announced.info.view == info.view
                &&& proposed.info.view == info.view
                &&& announced.block == proposed.block
                &&& sharing_block(
                    of_type_seq_view(
                        log.entries,
                        PbftMessageType::Prepare,
                        info.seq_num,
                        info.view,
                    ),
                    proposed.block,
                ).len() >= 2 * f + 1
            },
        of_type_seq_view(log.entries, PbftMessageType::Prepare, info.seq_num, info.view).len() >= 2
            * f + 1,
{
    let announced = log.block_new(info);
    let proposed = log.pre_prepare(info);
    lemma_found_is_stored(log.entries, PbftMessageType::BlockNew, info.seq_num, info.view, 0);
    lemma_found_is_stored(log.entries, PbftMessageType::PrePrepare, info.seq_num, info.view, 0);
    let prepares = of_type_seq_view(
        log.entries,
        PbftMessageType::Prepare,
        info.seq_num,
        info.view,
    );
    prepares.lemma_filter_len(|m: MessageView| m.block == proposed.block);
    assert(log.entries.contains(announced) && log.entries.contains(proposed));
}

/// Each message that a query by kind, sequence number and view finds is
/// stored and is of that kind, sequence number and view.
pub proof fn lemma_found_is_stored(
    entries: Seq<MessageView>,
    kind: PbftMessageType,
    seq_num: u64,
    view: u64,
    i: int,
)
    requires
        0 <= i < of_type_seq_view(entries, kind, seq_num, view).len(),
    ensures
        entries.contains(of_type_seq_view(entries, kind, seq_num, view)[i]),
        of_type_seq_view(entries, kind, seq_num, view)[i].info.msg_type == kind,
        of_type_seq_view(entries, kind, seq_num, view)[i].info.seq_num == seq_num,
        of_type_seq_view(entries, kind, seq_num, view)[i].info.view == view,
{
    let pred = |m: MessageView|
        m.info.msg_type == kind && m.info.seq_num == seq_num && m.info.view == view;
    let found = entries.filter(pred);
    entries.lemma_filter_pred(pred, i);
    assert(found.contains(found[i]));
    entries.lemma_filter_contains_rev(pred, found[i]);
}

/// While the BlockNew or the PrePrepare is missing, the log is neither
/// prepared nor at fault.
pub proof fn lemma_no_proposal_not_prepared(log: LogView, info: InfoView, f: u64)
    requires
        !log.has_proposal(info),
    ensures
        !log.prepared(info, f),
        !log.committable(info, f),
        !log.block_mismatch(info),
{
}

/// Where a BlockNew and a PrePrepare are stored at the sequence number and
/// view, and no such BlockNew is on the block of such a PrePrepare, the log
/// is at fault and not prepared.
pub proof fn lemma_disagreement_is_a_fault(log: LogView, info: InfoView, f: u64)
    requires
        log.has_proposal(info),
        forall|announced: MessageView, proposed: MessageView|
            {
                &&& #[trigger] log.entries.contains(announced)
                &&& #[trigger] log.entries.contains(proposed)
                &&& announced.info.msg_type == PbftMessageType::BlockNew
                &&& proposed.info.msg_type == PbftMessageType::PrePrepare
                &&& announced.info.seq_num == info.seq_num
                &&& proposed.info.seq_num == info.seq_num
                &&& announced.info.view == info.view
                &&& proposed.info.view == info.view
            } ==> announced.block != proposed.block,
    ensures
        log.block_mismatch(info),
        !log.prepared(info, f),
{
    lemma_found_is_stored(log.entries, PbftMessageType::BlockNew, info.seq_num, info.view, 0);
    lemma_found_is_stored(log.entries, PbftMessageType::PrePrepare, info.seq_num, info.view, 0);
    assert(log.entries.contains(log.block_new(info)));
    assert(log.entries.contains(log.pre_prepare(info)));
}

/// A committable log is prepared, and stores at least `2f + 1` Commit
/// messages at the sequence number and view on the PrePrepare's block.
pub proof fn lemma_committable_is_prepared(log: LogView, info: InfoView, f: u64)
    requires
        log.committable(info, f),
    ensures
        log.prepared(info, f),
        sharing_block(
            of_type_seq_view(log.entries, PbftMessageType::Commit, info.seq_num, info.view),
            log.pre_prepare(info).block,
        ).len() >= 2 * f + 1,
        of_type_seq_view(log.entries, PbftMessageType::Commit, info.seq_num, info.view).len() >= 2
            * f + 1,
{
    lemma_found_is_stored(log.entries, PbftMessageType::PrePrepare, info.seq_num, info.view, 0);
    let commits = of_type_seq_view(
        log.entries,
        PbftMessageType::Commit,
        info.seq_num,
        info.view,
    );
    commits.lemma_filter_len(|m: MessageView| m.block == log.pre_prepare(info).block);
}

/// After a compaction the window starts at the stable sequence number, no
/// stored message lies below it, none is at sequence number 0, and each was
/// stored before.
pub proof fn lemma_collect_prunes(log: LogView, stable: u64, view: u64)
    ensures
        log.after_collect(stable, view).low_water_mark == stable,
        log.after_collect(stable, view).cycles == 0,
        forall|i: int|
            0 <= i < log.after_collect(stable, view).entries.len() ==> {
                let m = #[trigger] log.after_collect(stable, view).entries[i];
                m.info.seq_num >= stable && m.info.seq_num > 0 && log.entries.contains(m)
            },
{
    let pred = |m: MessageView| m.info.seq_num >= stable && m.info.seq_num > 0;
    let kept = retained(log.entries, stable);
    assert forall|i: int| 0 <= i < kept.len() implies {
        let m = #[trigger] kept[i];
        m.info.seq_num >= stable && m.info.seq_num > 0 && log.entries.contains(m)
    } by {
        log.entries.lemma_filter_pred(pred, i);
        assert(kept.contains(kept[i]));
        log.entries.lemma_filter_contains_rev(pred, kept[i]);
    }
}

/// A compaction keeps every message at or above the stable sequence number,
/// but for those at sequence number 0.
pub proof fn lemma_collect_keeps_the_rest(log: LogView, stable: u64, view: u64, m: MessageView)
    requires
        log.entries.contains(m),
        m.info.seq_num >= stable,
        m.info.seq_num > 0,
    ensures
        log.after_collect(stable, view).entries.contains(m),
{
    let pred = |m: MessageView| m.info.seq_num >= stable && m.info.seq_num > 0;
    let i = choose|i: int| 0 <= i < log.entries.len() && log.entries[i] == m;
    log.entries.lemma_filter_contains(pred, i);
}

/// A compaction that does not move the window back keeps every stored
/// message in the window.
pub proof fn lemma_collect_keeps_window(log: LogView, stable: u64, view: u64)
    requires
        log.wf(),
        log.within_window(),
        stable >= log.low_water_mark,
        stable + log.max_log_size <= u64::MAX,
    ensures
        log.after_collect(stable, view).within_window(),
{
    lemma_collect_prunes(log, stable, view);
    let after = log.after_collect(stable, view);
    assert forall|i: int| 0 <= i < after.entries.len() implies after.low_water_mark <= (
    #[trigger] after.entries[i]).info.seq_num < after.high_water_mark by {
        let m = after.entries[i];
        assert(log.entries.contains(m));
        let j = choose|j: int| 0 <= j < log.entries.len() && log.entries[j] == m;
        assert(log.entries[j].info.seq_num < log.high_water_mark);
    }
}

/// A log that has seen nothing has no checkpoint, and none is due as long
/// as the checkpoint period is not 0.
pub proof fn lemma_fresh_log_has_no_checkpoint(max_log_size: u64, checkpoint_period: u64)
    requires
        checkpoint_period > 0,
    ensures
        LogView::empty(max_log_size, checkpoint_period).wf(),
        LogView::empty(max_log_size, checkpoint_period).latest_checkpoint() == 0,
        !LogView::empty(max_log_size, checkpoint_period).checkpoint_due(),
{
}

} // verus!
