use pbft_log::config::PbftConfig;
use pbft_log::error::PbftError;
use pbft_log::message::{
    Block, ParsedMessage, PbftBlock, PbftHint, PbftMessage, PbftMessageInfo, PbftMessageType,
};
use pbft_log::message_log::PbftLog;

fn small_config() -> PbftConfig {
    PbftConfig {
        peers: vec![vec![0], vec![1], vec![2], vec![3]],
        checkpoint_period: 2,
        max_log_size: 10,
    }
}

fn block(tag: u8, block_num: u64) -> PbftBlock {
    PbftBlock {
        block_id: vec![tag, tag],
        signer_id: vec![9],
        block_num,
        summary: vec![],
    }
}

fn message(
    msg_type: PbftMessageType,
    view: u64,
    seq_num: u64,
    signer: u8,
    tag: u8,
) -> ParsedMessage {
    ParsedMessage::from_pbft_message(PbftMessage {
        info: PbftMessageInfo {
            msg_type,
            view,
            seq_num,
            signer_id: vec![signer],
        },
        block: block(tag, seq_num),
    })
}

fn own(mut msg: ParsedMessage) -> ParsedMessage {
    msg.from_self = true;
    msg
}

const KINDS: [PbftMessageType; 6] = [
    PbftMessageType::PrePrepare,
    PbftMessageType::Prepare,
    PbftMessageType::Commit,
    PbftMessageType::BlockNew,
    PbftMessageType::Checkpoint,
    PbftMessageType::ViewChange,
];

fn stored(log: &PbftLog, seq_num: u64) -> usize {
    KINDS
        .iter()
        .map(|kind| log.get_messages_of_type_seq(kind, seq_num).len())
        .sum()
}

#[test]
fn message_at_the_high_water_mark_is_dropped() {
    let mut log = PbftLog::new(&small_config());
    log.add_message(message(PbftMessageType::Prepare, 0, 10, 1, 7), 0);
    assert_eq!(stored(&log, 10), 0);
    log.add_message(message(PbftMessageType::Prepare, 0, 9, 1, 7), 0);
    assert_eq!(stored(&log, 9), 1);
    assert_eq!(
        log.render(),
        "\nPbftLog (0, 10):\n    { Prepare, view: 0, seq: 9, signer: 01 }"
    );
}

#[test]
fn message_below_the_low_water_mark_is_dropped() {
    let mut log = PbftLog::new(&small_config());
    log.garbage_collect(5, 0);
    let before = log.render();
    log.add_message(message(PbftMessageType::Checkpoint, 0, 4, 1, 7), 0);
    assert_eq!(stored(&log, 4), 0);
    assert_eq!(log.render(), before);
    log.add_message(message(PbftMessageType::Checkpoint, 0, 5, 1, 7), 0);
    assert_eq!(stored(&log, 5), 1);
    log.add_message(message(PbftMessageType::Checkpoint, 0, 14, 1, 7), 0);
    assert_eq!(stored(&log, 14), 1);
    log.add_message(message(PbftMessageType::Checkpoint, 0, 15, 1, 7), 0);
    assert_eq!(stored(&log, 15), 0);
}

#[test]
fn message_of_another_view_is_dropped() {
    let mut log = PbftLog::new(&small_config());
    for kind in [
        PbftMessageType::PrePrepare,
        PbftMessageType::Prepare,
        PbftMessageType::Commit,
        PbftMessageType::BlockNew,
    ] {
        log.add_message(message(kind, 1, 3, 1, 7), 0);
        log.add_message(message(kind, 0, 3, 1, 7), 1);
    }
    assert_eq!(stored(&log, 3), 0);
    assert_eq!(log.cycles(), 0);
    assert_eq!(log.render(), "\nPbftLog (0, 10):\n");
}

#[test]
fn checkpoint_and_view_change_are_admitted_in_any_view() {
    let mut log = PbftLog::new(&small_config());
    log.add_message(message(PbftMessageType::Checkpoint, 5, 3, 1, 7), 0);
    log.add_message(message(PbftMessageType::ViewChange, 6, 3, 1, 7), 0);
    assert_eq!(
        log.get_messages_of_type_seq(&PbftMessageType::Checkpoint, 3)
            .len(),
        1
    );
    assert_eq!(
        log.get_messages_of_type_seq(&PbftMessageType::ViewChange, 3)
            .len(),
        1
    );
    assert_eq!(
        log.get_messages_of_type_seq_view(&PbftMessageType::Checkpoint, 3, 5)
            .len(),
        1
    );
    assert_eq!(
        log.get_messages_of_type_seq_view(&PbftMessageType::Checkpoint, 3, 0)
            .len(),
        0
    );
}

#[test]
fn adding_twice_stores_once() {
    let mut log = PbftLog::new(&small_config());
    let msg = message(PbftMessageType::BlockNew, 0, 1, 1, 7);
    log.add_message(msg.clone(), 0);
    let once = log.render();
    assert_eq!(log.cycles(), 1);
    log.add_message(msg.clone(), 0);
    assert_eq!(log.render(), once);
    assert_eq!(log.cycles(), 1);
    assert_eq!(stored(&log, 1), 1);

    // The same content from another signer is another entry.
    log.add_message(message(PbftMessageType::BlockNew, 0, 1, 2, 7), 0);
    assert_eq!(stored(&log, 1), 2);
    assert_eq!(log.cycles(), 2);

    // So is the same message written by this node.
    log.add_message(own(msg), 0);
    assert_eq!(stored(&log, 1), 3);
    assert_eq!(log.cycles(), 3);

    // No other kind counts a cycle.
    log.add_message(message(PbftMessageType::Prepare, 0, 1, 1, 7), 0);
    assert_eq!(stored(&log, 1), 4);
    assert_eq!(log.cycles(), 3);
}

#[test]
fn checkpoint_is_due_after_a_period_of_block_news() {
    let mut log = PbftLog::new(&small_config());
    assert!(!log.at_checkpoint());
    log.add_message(message(PbftMessageType::BlockNew, 0, 1, 1, 7), 0);
    assert!(!log.at_checkpoint());
    log.add_message(message(PbftMessageType::BlockNew, 0, 2, 1, 7), 0);
    assert!(log.at_checkpoint());
    log.garbage_collect(2, 0);
    assert!(!log.at_checkpoint());
    assert_eq!(log.cycles(), 0);
    assert_eq!(log.get_latest_checkpoint(), 2);
}

#[test]
fn a_period_of_zero_is_due_at_once() {
    let log = PbftLog::new(&PbftConfig {
        peers: vec![],
        checkpoint_period: 0,
        max_log_size: 10,
    });
    assert!(log.at_checkpoint());
    assert_eq!(log.get_latest_checkpoint(), 0);
}

#[test]
fn future_message_goes_to_the_backlog() {
    let mut log = PbftLog::new(&small_config());
    let msg = message(PbftMessageType::Prepare, 0, 1, 1, 7);
    let filed = log.add_message_with_hint(msg.clone(), &PbftHint::FutureMessage, 0);
    assert_eq!(filed, Err(PbftError::NotReadyForMessage));
    assert_eq!(stored(&log, 1), 0);
    assert_eq!(log.pop_backlog(), Some(msg));
    assert_eq!(log.pop_backlog(), None);
}

#[test]
fn past_message_goes_into_the_log() {
    let mut log = PbftLog::new(&small_config());
    let msg = message(PbftMessageType::BlockNew, 0, 1, 1, 7);
    let filed = log.add_message_with_hint(msg.clone(), &PbftHint::PastMessage, 0);
    assert_eq!(filed, Err(PbftError::NotReadyForMessage));
    assert_eq!(stored(&log, 1), 1);
    assert_eq!(log.cycles(), 1);
    assert_eq!(log.pop_backlog(), None);

    // A past message that is not admitted is dropped with the same signal.
    let stale = message(PbftMessageType::BlockNew, 3, 1, 1, 7);
    let filed = log.add_message_with_hint(stale, &PbftHint::PastMessage, 0);
    assert_eq!(filed, Err(PbftError::NotReadyForMessage));
    assert_eq!(stored(&log, 1), 1);
}

#[test]
fn present_message_is_left_to_the_caller() {
    let mut log = PbftLog::new(&small_config());
    let msg = message(PbftMessageType::PrePrepare, 0, 1, 1, 7);
    let filed = log.add_message_with_hint(msg, &PbftHint::PresentMessage, 0);
    assert_eq!(filed, Ok(()));
    assert_eq!(stored(&log, 1), 0);
    assert_eq!(log.pop_backlog(), None);
}

#[test]
fn backlog_is_first_in_first_out() {
    let mut log = PbftLog::new(&small_config());
    let first = message(PbftMessageType::Prepare, 0, 1, 1, 7);
    let second = message(PbftMessageType::Commit, 0, 2, 2, 8);
    let third = message(PbftMessageType::Commit, 0, 3, 3, 9);
    log.push_backlog(first.clone());
    log.push_backlog(second.clone());
    assert_eq!(log.pop_backlog(), Some(first.clone()));
    log.push_backlog(third.clone());
    // The same message may wait twice.
    log.push_backlog(third.clone());
    assert_eq!(log.pop_backlog(), Some(second));
    assert_eq!(log.pop_backlog(), Some(third.clone()));
    assert_eq!(log.pop_backlog(), Some(third));
    assert_eq!(log.pop_backlog(), None);
}

fn announced(block_num: u64) -> Block {
    Block {
        block_id: vec![block_num as u8],
        previous_id: vec![block_num as u8 - 1],
        signer_id: vec![4, 2],
        block_num,
        payload: vec![1, 2, 3],
        summary: vec![5],
    }
}

#[test]
fn block_backlog_is_first_in_first_out() {
    let mut log = PbftLog::new(&small_config());
    assert_eq!(log.pop_block_backlog(), None);
    log.push_block_backlog(announced(1));
    log.push_block_backlog(announced(2));
    log.push_block_backlog(announced(3));
    assert_eq!(log.pop_block_backlog(), Some(announced(1)));
    assert_eq!(log.pop_block_backlog(), Some(announced(2)));
    assert_eq!(log.pop_block_backlog(), Some(announced(3)));
    assert_eq!(log.pop_block_backlog(), None);
    // The two queues do not touch each other.
    log.push_block_backlog(announced(4));
    assert_eq!(log.pop_backlog(), None);
    assert_eq!(log.pop_block_backlog(), Some(announced(4)));
}
