use sawtooth_pbft::config::PbftConfig;
use sawtooth_pbft::message::{bytes_eq, Block, PbftBlock, PbftMessage, PbftMessageInfo, PeerMessage};
use sawtooth_pbft::message_log::{num_unique, PbftLog};
use sawtooth_pbft::message_type::PbftMessageType;
use sawtooth_pbft::node::{PbftNode, PbftNotReadyType};
use sawtooth_pbft::state::{PbftPhase, PbftState, Timeout, WorkingBlockOption};

fn config(n: u64) -> PbftConfig {
    PbftConfig::with_peers((0..n).map(|i| vec![i as u8]).collect())
}

fn pblock(id: u8, num: u64) -> PbftBlock {
    PbftBlock { block_id: vec![id], signer_id: vec![], block_num: num, summary: vec![] }
}

fn msg(t: PbftMessageType, view: u64, seq: u64, from: u8, b: &PbftBlock) -> PbftMessage {
    PbftMessage {
        info: PbftMessageInfo { msg_type: t, view, seq_num: seq, signer_id: vec![from] },
        block: b.clone(),
    }
}

#[test]
fn message_type_order() {
    assert!(PbftMessageType::BlockNew.precedes(&PbftMessageType::PrePrepare));
    assert!(PbftMessageType::PrePrepare.precedes(&PbftMessageType::Prepare));
    assert!(PbftMessageType::Prepare.precedes(&PbftMessageType::Commit));
    assert!(!PbftMessageType::Commit.precedes(&PbftMessageType::Commit));
    assert_eq!(PbftMessageType::Unset.rank(), 6);
    assert!(PbftMessageType::Prepare.is_multicast());
    assert!(!PbftMessageType::Checkpoint.is_multicast());
    assert!(!PbftMessageType::BlockNew.is_multicast());
}

#[test]
fn fault_tolerance_from_roster() {
    assert_eq!(PbftState::new(0, &config(4)).f, 1);
    assert_eq!(PbftState::new(0, &config(1)).f, 0);
    assert_eq!(PbftState::new(0, &config(7)).f, 2);
    assert_eq!(PbftState::new(0, &config(10)).f, 3);
}

#[test]
fn phase_switches() {
    let mut s = PbftState::new(1, &config(4));
    assert_eq!(s.switch_phase(PbftPhase::Preparing), None);
    assert_eq!(s.phase, PbftPhase::NotStarted);
    assert_eq!(s.switch_phase(PbftPhase::PrePreparing), Some(PbftPhase::PrePreparing));
    assert_eq!(s.check_msg_type(), PbftMessageType::PrePrepare);
    assert_eq!(s.switch_phase(PbftPhase::PrePreparing), None);
    assert_eq!(s.switch_phase(PbftPhase::Preparing), Some(PbftPhase::Preparing));
    assert_eq!(s.switch_phase(PbftPhase::Checking), Some(PbftPhase::Checking));
    assert_eq!(s.check_msg_type(), PbftMessageType::Prepare);
    assert_eq!(s.switch_phase(PbftPhase::Preparing), None);
    assert_eq!(s.switch_phase(PbftPhase::Committing), Some(PbftPhase::Committing));
    assert_eq!(s.switch_phase(PbftPhase::Finished), Some(PbftPhase::Finished));
    assert_eq!(s.check_msg_type(), PbftMessageType::Unset);
    assert_eq!(s.switch_phase(PbftPhase::NotStarted), Some(PbftPhase::NotStarted));
    assert_eq!(s.check_msg_type(), PbftMessageType::BlockNew);
}

#[test]
fn primary_rotates_with_view() {
    let mut s = PbftState::new(2, &config(4));
    assert!(!s.is_primary());
    assert_eq!(s.get_primary_peer_id(), vec![0u8]);
    s.enter_view(2);
    assert!(s.is_primary());
    assert_eq!(s.get_primary_peer_id(), vec![2u8]);
    s.enter_view(5);
    assert!(!s.is_primary());
    assert_eq!(s.get_primary_peer_id(), vec![1u8]);
    s.enter_view(6);
    assert!(s.is_primary());
    assert_eq!(s.get_own_peer_id(), vec![2u8]);
}

#[test]
fn timer() {
    let mut t = Timeout::new(100);
    assert!(!t.is_expired(1000));
    t.start(50);
    assert!(!t.is_expired(149));
    assert!(t.is_expired(150));
    assert!(!t.is_expired(10));
    t.stop();
    assert!(!t.is_expired(1000));
}

#[test]
fn distinct_signers() {
    assert_eq!(num_unique(&vec![]), 0);
    assert_eq!(num_unique(&vec![vec![1], vec![2], vec![1], vec![], vec![]]), 3);
    assert!(bytes_eq(&vec![1, 2], &vec![1, 2]));
    assert!(!bytes_eq(&vec![1, 2], &vec![1]));
}

#[test]
fn verdicts() {
    let mut n = PbftNode::new(1, &config(4));
    let b = pblock(1, 1);
    n.state.seq_num = 5;
    assert_eq!(n._handle_multicast(&msg(PbftMessageType::Prepare, 0, 6, 0, &b)), PbftNotReadyType::PushToBacklog);
    assert_eq!(n._handle_multicast(&msg(PbftMessageType::Prepare, 0, 5, 0, &b)), PbftNotReadyType::AddToLog);
    assert_eq!(n._handle_multicast(&msg(PbftMessageType::Prepare, 0, 4, 0, &b)), PbftNotReadyType::AddToLog);
    n.state.working_block = WorkingBlockOption::WorkingBlock(b.clone());
    n.state.phase = PbftPhase::Preparing;
    assert_eq!(n._handle_multicast(&msg(PbftMessageType::PrePrepare, 0, 5, 0, &b)), PbftNotReadyType::AddToLog);
    assert_eq!(n._handle_multicast(&msg(PbftMessageType::Prepare, 0, 5, 0, &b)), PbftNotReadyType::Proceed);
    assert_eq!(n._handle_multicast(&msg(PbftMessageType::Commit, 0, 5, 0, &b)), PbftNotReadyType::PushToBacklog);
    assert_eq!(n._handle_multicast(&msg(PbftMessageType::Commit, 0, 4, 0, &b)), PbftNotReadyType::AddToLog);
    n.state.phase = PbftPhase::Checking;
    assert_eq!(n._handle_multicast(&msg(PbftMessageType::Prepare, 0, 5, 0, &b)), PbftNotReadyType::Proceed);
}

#[test]
fn one_pre_prepare_per_slot() {
    let mut log = PbftLog::new(&config(4));
    log.add_message(msg(PbftMessageType::PrePrepare, 0, 1, 0, &pblock(1, 1)));
    log.add_message(msg(PbftMessageType::PrePrepare, 0, 1, 0, &pblock(2, 1)));
    log.add_message(msg(PbftMessageType::PrePrepare, 0, 2, 0, &pblock(2, 2)));
    log.add_message(msg(PbftMessageType::Prepare, 0, 1, 0, &pblock(1, 1)));
    log.add_message(msg(PbftMessageType::Prepare, 0, 1, 0, &pblock(1, 1)));
    assert_eq!(log.messages.len(), 4);
    let pp = log.get_messages_of_type(PbftMessageType::PrePrepare, 1, 0);
    assert_eq!(pp.len(), 1);
    assert_eq!(pp[0].block.block_id, vec![1u8]);
    assert!(log.has_message_of_type(PbftMessageType::Prepare, 0, 1));
    assert!(!log.has_message_of_type(PbftMessageType::Commit, 0, 1));
}

#[test]
fn prepared_and_committed() {
    let mut log = PbftLog::new(&config(4));
    let b = pblock(1, 1);
    let m = msg(PbftMessageType::Prepare, 0, 1, 0, &b);
    assert!(log.prepared(&m, 1).is_err());
    log.add_message(msg(PbftMessageType::PrePrepare, 0, 1, 0, &b));
    for from in 0..2 {
        log.add_message(msg(PbftMessageType::Prepare, 0, 1, from, &b));
    }
    // A Prepare for another block does not count.
    log.add_message(msg(PbftMessageType::Prepare, 0, 1, 3, &pblock(2, 1)));
    assert!(log.prepared(&m, 1).is_err());
    log.add_message(msg(PbftMessageType::Prepare, 0, 1, 2, &b));
    assert!(log.prepared(&m, 1).is_ok());
    assert!(log.prepared(&msg(PbftMessageType::Prepare, 0, 1, 0, &pblock(2, 1)), 1).is_err());
    assert!(log.committed(&m, 1).is_err());
    for from in 1..4 {
        log.add_message(msg(PbftMessageType::Commit, 0, 1, from, &b));
    }
    assert!(log.committed(&m, 1).is_ok());
    assert!(log.committed(&m, 2).is_err());
}

#[test]
fn renumbering_block_new() {
    let mut log = PbftLog::new(&config(4));
    let b = pblock(1, 1);
    log.add_message(msg(PbftMessageType::BlockNew, 0, 0, 1, &b));
    log.add_message(msg(PbftMessageType::BlockNew, 0, 0, 1, &pblock(2, 2)));
    log.add_message(msg(PbftMessageType::Prepare, 0, 0, 1, &b));
    assert_eq!(log.fix_seq_nums(PbftMessageType::BlockNew, 4, 2, &b), 1);
    assert_eq!((log.messages[0].info.view, log.messages[0].info.seq_num), (2, 4));
    assert_eq!(log.messages[1].info.seq_num, 0);
    assert_eq!(log.messages[2].info.seq_num, 0);
    assert_eq!(log.fix_seq_nums(PbftMessageType::BlockNew, 4, 2, &pblock(9, 9)), 0);
}

#[test]
fn garbage_collection() {
    let mut log = PbftLog::new(&config(4));
    let empty = PbftBlock::empty();
    log.add_message(msg(PbftMessageType::Prepare, 0, 3, 0, &pblock(1, 3)));
    log.add_message(msg(PbftMessageType::Checkpoint, 0, 10, 0, &empty));
    log.add_message(msg(PbftMessageType::Checkpoint, 0, 10, 1, &empty));
    log.add_message(msg(PbftMessageType::Commit, 0, 11, 0, &pblock(1, 11)));
    log.add_message(msg(PbftMessageType::Commit, 0, 9, 0, &pblock(1, 9)));
    assert!(log.check_msg_against_log(&msg(PbftMessageType::Checkpoint, 0, 10, 0, &empty), 2).is_ok());
    assert!(log.check_msg_against_log(&msg(PbftMessageType::Checkpoint, 0, 10, 0, &empty), 3).is_err());
    log.garbage_collect(10, 0);
    assert_eq!(log.get_latest_checkpoint(), 10);
    let seqs: Vec<u64> = log.messages.iter().map(|m| m.info.seq_num).collect();
    assert_eq!(seqs, vec![10, 10, 11]);
    assert_eq!(log.latest_stable_checkpoint.as_ref().unwrap().checkpoint_messages.len(), 2);
}

#[test]
fn checkpoint_period() {
    let log = PbftLog::new(&config(4));
    assert!(log.at_checkpoint(100));
    assert!(log.at_checkpoint(200));
    assert!(!log.at_checkpoint(150));
    let mut cfg = config(4);
    cfg.checkpoint_period = 0;
    assert!(!PbftLog::new(&cfg).at_checkpoint(0));
}

#[test]
fn backlogs_are_fifo() {
    let mut log = PbftLog::new(&config(4));
    assert!(log.pop_backlog().is_none());
    let b = pblock(1, 1);
    log.push_backlog(PeerMessage::Pbft(msg(PbftMessageType::Prepare, 0, 1, 0, &b)));
    log.push_backlog(PeerMessage::Pbft(msg(PbftMessageType::Commit, 0, 1, 0, &b)));
    match log.pop_backlog() {
        Some(PeerMessage::Pbft(m)) => assert_eq!(m.info.msg_type, PbftMessageType::Prepare),
        _ => panic!("wrong backlog order"),
    }
    assert_eq!(log.backlog.len(), 1);
    let blk = |n: u64| Block { block_id: vec![n as u8], previous_id: vec![], signer_id: vec![], block_num: n, payload: vec![], summary: vec![] };
    log.push_block_backlog(blk(3));
    log.push_block_backlog(blk(4));
    assert_eq!(log.pop_block_backlog().unwrap().block_num, 3);
    assert_eq!(log.pop_block_backlog().unwrap().block_num, 4);
    assert!(log.pop_block_backlog().is_none());
}

#[test]
fn block_projection() {
    let b = Block { block_id: vec![7], previous_id: vec![6], signer_id: vec![1], block_num: 7, payload: vec![9, 9], summary: vec![5] };
    let p = PbftBlock::from_block(&b);
    assert_eq!(p.block_id, vec![7u8]);
    assert_eq!(p.signer_id, vec![1u8]);
    assert_eq!(p.block_num, 7);
    assert_eq!(p.summary, vec![5u8]);
    assert!(p.same_as(&p.copy()));
    assert!(!p.same_as(&PbftBlock::empty()));
}

#[test]
fn wire_names() {
    assert_eq!(PbftMessageType::BlockNew.as_str(), "BlockNew");
    assert_eq!(PbftMessageType::PrePrepare.as_str(), "PrePrepare");
    assert_eq!(PbftMessageType::Prepare.as_str(), "Prepare");
    assert_eq!(PbftMessageType::Commit.as_str(), "Commit");
    assert_eq!(PbftMessageType::Checkpoint.as_str(), "Checkpoint");
    assert_eq!(PbftMessageType::ViewChange.as_str(), "ViewChange");
    assert_eq!(PbftMessageType::Unset.as_str(), "Unset");
}
