use pbft_log::config::PbftConfig;
use pbft_log::error::PbftError;
use pbft_log::message::{ParsedMessage, PbftBlock, PbftMessage, PbftMessageInfo, PbftMessageType};
use pbft_log::message_log::PbftLog;

fn wide_config() -> PbftConfig {
    PbftConfig {
        peers: vec![vec![0], vec![1], vec![2], vec![3]],
        checkpoint_period: 100,
        max_log_size: 1000,
    }
}

fn block_tagged(tag: u8) -> PbftBlock {
    PbftBlock {
        block_id: vec![tag],
        signer_id: vec![9],
        block_num: 1,
        summary: vec![],
    }
}

fn vote(
    msg_type: PbftMessageType,
    view: u64,
    seq_num: u64,
    signer: u8,
    tag: u8,
) -> ParsedMessage {
    ParsedMessage::from_pbft_message(PbftMessage {
        info: PbftMessageInfo {
            msg_type,
            view,
            seq_num,
            signer_id: vec![signer],
        },
        block: block_tagged(tag),
    })
}

fn own_vote(
    msg_type: PbftMessageType,
    view: u64,
    seq_num: u64,
    signer: u8,
    tag: u8,
) -> ParsedMessage {
    let mut msg = vote(msg_type, view, seq_num, signer, tag);
    msg.from_self = true;
    msg
}

fn at(view: u64, seq_num: u64) -> PbftMessageInfo {
    PbftMessageInfo {
        msg_type: PbftMessageType::Prepare,
        view,
        seq_num,
        signer_id: vec![],
    }
}

#[test]
fn mismatch_of_block_new_and_pre_prepare_is_a_fault() {
    let mut log = PbftLog::new(&wide_config());
    log.add_message(vote(PbftMessageType::BlockNew, 0, 1, 0, 7), 0);
    log.add_message(vote(PbftMessageType::PrePrepare, 0, 1, 0, 8), 0);
    for signer in 0..4 {
        log.add_message(vote(PbftMessageType::Prepare, 0, 1, signer, 8), 0);
        log.add_message(vote(PbftMessageType::Commit, 0, 1, signer, 8), 0);
    }
    let fault = PbftError::BlockMismatch(block_tagged(7), block_tagged(8));
    assert_eq!(log.check_prepared(&at(0, 1), 1), Err(fault.clone()));
    assert_eq!(log.check_committable(&at(0, 1), 1), Err(fault));
    // Another sequence number or view is not touched by it.
    assert_eq!(log.check_prepared(&at(0, 2), 1), Ok(false));
    assert_eq!(log.check_prepared(&at(1, 1), 1), Ok(false));
}

#[test]
fn prepares_on_another_block_do_not_count() {
    let mut log = PbftLog::new(&wide_config());
    log.add_message(vote(PbftMessageType::BlockNew, 0, 1, 0, 7), 0);
    log.add_message(vote(PbftMessageType::PrePrepare, 0, 1, 0, 7), 0);
    log.add_message(vote(PbftMessageType::Prepare, 0, 1, 0, 7), 0);
    log.add_message(vote(PbftMessageType::Prepare, 0, 1, 1, 7), 0);
    log.add_message(vote(PbftMessageType::Prepare, 0, 1, 2, 8), 0);
    log.add_message(vote(PbftMessageType::Prepare, 0, 1, 3, 8), 0);
    assert_eq!(log.check_prepared(&at(0, 1), 1), Ok(false));
    // With no fault to tolerate one matching Prepare is enough.
    assert_eq!(log.check_prepared(&at(0, 1), 0), Ok(true));
    log.add_message(vote(PbftMessageType::Prepare, 0, 1, 4, 7), 0);
    assert_eq!(log.check_prepared(&at(0, 1), 1), Ok(true));
    assert_eq!(log.check_prepared(&at(0, 1), 2), Ok(false));
}

#[test]
fn commits_alone_do_not_make_committable() {
    let mut log = PbftLog::new(&wide_config());
    log.add_message(vote(PbftMessageType::BlockNew, 0, 1, 0, 7), 0);
    log.add_message(vote(PbftMessageType::PrePrepare, 0, 1, 0, 7), 0);
    for signer in 0..4 {
        log.add_message(vote(PbftMessageType::Commit, 0, 1, signer, 7), 0);
    }
    assert_eq!(log.check_prepared(&at(0, 1), 1), Ok(false));
    assert_eq!(log.check_committable(&at(0, 1), 1), Ok(false));
    for signer in 0..3 {
        log.add_message(vote(PbftMessageType::Prepare, 0, 1, signer, 7), 0);
    }
    assert_eq!(log.check_prepared(&at(0, 1), 1), Ok(true));
    assert_eq!(log.check_committable(&at(0, 1), 1), Ok(true));
}

#[test]
fn quorum_too_large_for_any_log_is_never_met() {
    let mut log = PbftLog::new(&wide_config());
    log.add_message(vote(PbftMessageType::BlockNew, 0, 1, 0, 7), 0);
    log.add_message(vote(PbftMessageType::PrePrepare, 0, 1, 0, 7), 0);
    log.add_message(vote(PbftMessageType::Prepare, 0, 1, 0, 7), 0);
    assert_eq!(log.check_prepared(&at(0, 1), u64::MAX), Ok(false));
    assert_eq!(log.check_prepared(&at(0, 1), u64::MAX / 2), Ok(false));
    assert_eq!(log.check_prepared(&at(0, 1), u64::MAX / 2 + 1), Ok(false));
    assert_eq!(log.check_committable(&at(0, 1), u64::MAX), Ok(false));
}

#[test]
fn one_message_is_the_oldest_match() {
    let mut log = PbftLog::new(&wide_config());
    assert_eq!(log.get_one_msg(&at(0, 1), &PbftMessageType::Prepare), None);
    let first = vote(PbftMessageType::Prepare, 0, 1, 5, 7);
    log.add_message(vote(PbftMessageType::Prepare, 0, 2, 4, 7), 0);
    log.add_message(vote(PbftMessageType::Commit, 0, 1, 4, 7), 0);
    log.add_message(first.clone(), 0);
    log.add_message(vote(PbftMessageType::Prepare, 0, 1, 6, 7), 0);
    assert_eq!(
        log.get_one_msg(&at(0, 1), &PbftMessageType::Prepare),
        Some(&first)
    );
    assert_eq!(log.get_one_msg(&at(1, 1), &PbftMessageType::Prepare), None);
    assert_eq!(log.get_one_msg(&at(0, 1), &PbftMessageType::BlockNew), None);
}

#[test]
fn required_count_with_and_without_the_block() {
    let mut log = PbftLog::new(&wide_config());
    let reference = vote(PbftMessageType::PrePrepare, 0, 1, 0, 7);
    log.add_message(vote(PbftMessageType::Prepare, 0, 1, 0, 7), 0);
    log.add_message(vote(PbftMessageType::Prepare, 0, 1, 1, 7), 0);
    log.add_message(vote(PbftMessageType::Prepare, 0, 1, 2, 8), 0);
    log.add_message(vote(PbftMessageType::Prepare, 0, 2, 3, 7), 0);
    log.add_message(vote(PbftMessageType::Commit, 0, 1, 3, 7), 0);
    let kind = PbftMessageType::Prepare;
    assert!(log.log_has_required_msgs(&kind, &reference, false, 3));
    assert!(!log.log_has_required_msgs(&kind, &reference, false, 4));
    assert!(log.log_has_required_msgs(&kind, &reference, true, 2));
    assert!(!log.log_has_required_msgs(&kind, &reference, true, 3));
    assert!(log.log_has_required_msgs(&kind, &reference, true, 0));
    assert!(!log.log_has_required_msgs(&kind, &reference, false, u64::MAX));
}

#[test]
fn queries_by_sequence_number_cover_every_view() {
    let mut log = PbftLog::new(&wide_config());
    let a = vote(PbftMessageType::Checkpoint, 0, 4, 0, 7);
    let b = vote(PbftMessageType::Checkpoint, 3, 4, 1, 7);
    let c = vote(PbftMessageType::Checkpoint, 3, 5, 1, 7);
    let d = vote(PbftMessageType::Checkpoint, 0, 4, 2, 7);
    for msg in [&a, &b, &c, &d] {
        log.add_message(msg.clone(), 0);
    }
    assert_eq!(
        log.get_messages_of_type_seq(&PbftMessageType::Checkpoint, 4),
        vec![&a, &b, &d]
    );
    assert_eq!(
        log.get_messages_of_type_seq_view(&PbftMessageType::Checkpoint, 4, 0),
        vec![&a, &d]
    );
    assert_eq!(
        log.get_messages_of_type_seq_view(&PbftMessageType::Checkpoint, 4, 3),
        vec![&b]
    );
    assert!(log
        .get_messages_of_type_seq(&PbftMessageType::ViewChange, 4)
        .is_empty());
}

#[test]
fn seal_takes_the_highest_view_with_enough_messages() {
    let mut log = PbftLog::new(&wide_config());
    let kind = PbftMessageType::ViewChange;
    // View 1: three messages of others. View 2: two of others and one of
    // this node. View 3: one of others.
    let v1: Vec<ParsedMessage> = (0..3).map(|s| vote(kind, 1, 6, s, 7)).collect();
    let v2: Vec<ParsedMessage> = (0..2).map(|s| vote(kind, 2, 6, s, 7)).collect();
    let v3 = vote(kind, 3, 6, 0, 7);
    log.add_message(v2[0].clone(), 0);
    log.add_message(v1[0].clone(), 0);
    log.add_message(v3.clone(), 0);
    log.add_message(own_vote(kind, 2, 6, 9, 7), 0);
    log.add_message(v1[1].clone(), 0);
    log.add_message(v2[1].clone(), 0);
    log.add_message(v1[2].clone(), 0);
    log.add_message(vote(kind, 4, 7, 0, 7), 0);
    log.add_message(vote(PbftMessageType::Checkpoint, 5, 6, 0, 7), 0);

    assert_eq!(log.get_enough_messages(&kind, 6, 0), Some(vec![&v3]));
    assert_eq!(log.get_enough_messages(&kind, 6, 1), Some(vec![&v3]));
    assert_eq!(
        log.get_enough_messages(&kind, 6, 2),
        Some(vec![&v2[0], &v2[1]])
    );
    assert_eq!(
        log.get_enough_messages(&kind, 6, 3),
        Some(vec![&v1[0], &v1[1], &v1[2]])
    );
    assert_eq!(log.get_enough_messages(&kind, 6, 4), None);
    assert_eq!(log.get_enough_messages(&kind, 8, 0), None);
    assert_eq!(log.get_enough_messages(&PbftMessageType::Commit, 6, 0), None);
}

#[test]
fn seal_ignores_messages_of_this_node() {
    let mut log = PbftLog::new(&wide_config());
    let kind = PbftMessageType::Commit;
    log.add_message(own_vote(kind, 0, 1, 0, 7), 0);
    assert_eq!(log.get_enough_messages(&kind, 1, 0), None);
    assert_eq!(log.get_enough_messages(&kind, 1, 1), None);
    let other = vote(kind, 0, 1, 1, 7);
    log.add_message(other.clone(), 0);
    assert_eq!(log.get_enough_messages(&kind, 1, 1), Some(vec![&other]));
    assert_eq!(log.get_enough_messages(&kind, 1, 2), None);
}
