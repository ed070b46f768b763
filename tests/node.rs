use sawtooth_pbft::config::PbftConfig;
use sawtooth_pbft::error::PbftError;
use sawtooth_pbft::message::{Block, PbftBlock, PbftMessage, PbftMessageInfo, PbftViewChange, PeerMessage};
use sawtooth_pbft::message_type::PbftMessageType;
use sawtooth_pbft::node::{ChainView, PbftNode, ServiceAction};
use sawtooth_pbft::state::{PbftMode, PbftPhase, WorkingBlockOption};

fn mock_block_id(num: u64) -> Vec<u8> {
    format!("I'm a block with block num {}", num).into_bytes()
}

fn mock_peer_id(num: u64) -> Vec<u8> {
    format!("I'm a peer (number {})", num).into_bytes()
}

fn mock_block(num: u64) -> Block {
    Block {
        block_id: mock_block_id(num),
        previous_id: mock_block_id(num - 1),
        signer_id: vec![],
        block_num: num,
        payload: vec![],
        summary: vec![],
    }
}

fn mock_config(n: u64) -> PbftConfig {
    PbftConfig::with_peers((0..n).map(mock_peer_id).collect())
}

fn mock_node(node_id: u64) -> PbftNode {
    PbftNode::new(node_id, &mock_config(4))
}

/// The host's chain holds only the genesis block; it can look up block 1.
fn genesis_chain() -> ChainView {
    ChainView {
        head: Block {
            block_id: mock_block_id(0),
            previous_id: mock_block_id(0),
            signer_id: vec![],
            block_num: 1,
            payload: vec![],
            summary: vec![],
        },
        blocks: vec![mock_block(1)],
    }
}

fn mock_pbft(msg_type: PbftMessageType, view: u64, seq_num: u64, block: &Block, from: u64) -> PbftMessage {
    PbftMessage {
        info: PbftMessageInfo { msg_type, view, seq_num, signer_id: mock_peer_id(from) },
        block: PbftBlock::from_block(block),
    }
}

fn mock_msg(msg_type: PbftMessageType, view: u64, seq_num: u64, block: &Block, from: u64) -> PeerMessage {
    PeerMessage::Pbft(mock_pbft(msg_type, view, seq_num, block, from))
}

fn mock_view_change(view: u64, seq_num: u64, from: u64) -> PeerMessage {
    PeerMessage::ViewChange(PbftViewChange {
        info: PbftMessageInfo {
            msg_type: PbftMessageType::ViewChange,
            view,
            seq_num,
            signer_id: mock_peer_id(from),
        },
        checkpoint_messages: vec![],
    })
}

fn handle_pbft_err(e: PbftError) {
    match e {
        PbftError::Timeout => (),
        PbftError::WrongNumMessages(_, _, _) | PbftError::NotReadyForMessage => println!("{:?}", e),
        _ => panic!("{:?}", e),
    }
}

fn is_tentative(w: &WorkingBlockOption, id: &[u8]) -> bool {
    match w {
        WorkingBlockOption::TentativeWorkingBlock(b) => b.as_slice() == id,
        _ => false,
    }
}

#[test]
fn block_new() {
    let chain = genesis_chain();
    let mut node0 = mock_node(0);
    node0.on_block_new(mock_block(1), &chain, 0).unwrap_or_else(handle_pbft_err);
    assert_eq!(node0.state.phase, PbftPhase::PrePreparing);
    assert_eq!(node0.state.seq_num, 1);
    assert!(is_tentative(&node0.state.working_block, &mock_block_id(1)));

    let mut node1 = mock_node(1);
    node1.on_block_new(mock_block(1), &chain, 0).unwrap_or_else(handle_pbft_err);
    assert_eq!(node1.state.phase, PbftPhase::PrePreparing);
    assert!(is_tentative(&node1.state.working_block, &mock_block_id(1)));
    assert_eq!(node1.state.seq_num, 0);

    let mut node1 = mock_node(1);
    node1.on_block_new(mock_block(7), &chain, 0).unwrap_or_else(handle_pbft_err);
    assert_eq!(node1.state.phase, PbftPhase::NotStarted);
    assert!(matches!(node1.state.working_block, WorkingBlockOption::NoWorkingBlock));
    assert_eq!(node1.state.seq_num, 0);
}

#[test]
fn block_valid() {
    let mut node = mock_node(0);
    node.state.phase = PbftPhase::Checking;
    node.on_block_valid(mock_block_id(1), &genesis_chain()).unwrap_or_else(handle_pbft_err);
    assert!(node.state.phase == PbftPhase::Committing);
}

#[test]
fn block_commit() {
    let mut node = mock_node(0);
    node.state.phase = PbftPhase::Finished;
    node.on_block_commit(mock_block_id(1)).unwrap_or_else(handle_pbft_err);
    assert!(node.state.phase == PbftPhase::NotStarted);
}

#[test]
fn multicast_protocol() {
    let chain = genesis_chain();
    let mut node1 = mock_node(1);
    let block = mock_block(1);
    node1.on_block_new(block.clone(), &chain, 0).unwrap_or_else(handle_pbft_err);

    let msg = mock_msg(PbftMessageType::PrePrepare, 0, 1, &block, 0);
    node1.on_peer_message(msg, &chain).unwrap_or_else(handle_pbft_err);

    assert_eq!(node1.state.phase, PbftPhase::Preparing);
    assert_eq!(node1.state.seq_num, 1);
    if let WorkingBlockOption::WorkingBlock(ref blk) = node1.state.working_block {
        assert_eq!(blk.block_id, mock_block_id(1));
    } else {
        panic!("Wrong WorkingBlockOption");
    }

    for peer in 0..3 {
        assert_eq!(node1.state.phase, PbftPhase::Preparing);
        let msg = mock_msg(PbftMessageType::Prepare, 0, 1, &block, peer);
        node1.on_peer_message(msg, &chain).unwrap_or_else(handle_pbft_err);
    }
    assert_eq!(node1.state.phase, PbftPhase::Checking);

    assert!(node1.on_block_valid(mock_block_id(1), &chain).is_ok());

    for peer in 0..3 {
        assert_eq!(node1.state.phase, PbftPhase::Committing);
        let msg = mock_msg(PbftMessageType::Commit, 0, 1, &block, peer);
        node1.on_peer_message(msg, &chain).unwrap_or_else(handle_pbft_err);
    }
    assert_eq!(node1.state.phase, PbftPhase::Finished);

    assert!(node1.on_block_commit(mock_block_id(1)).is_ok());
    assert_eq!(node1.state.phase, PbftPhase::NotStarted);

    // The block went to the host for commit, once.
    let commits: Vec<&Vec<u8>> = node1
        .actions
        .iter()
        .filter_map(|a| match a {
            ServiceAction::CommitBlock(id) => Some(id),
            _ => None,
        })
        .collect();
    assert_eq!(commits.len(), 1);
    assert_eq!(commits[0], &mock_block_id(1));
}

#[test]
fn checkpoint() {
    let mut node1 = mock_node(1);
    node1.state.seq_num = 10;
    let block = mock_block(10);
    assert_eq!(node1.state.mode, PbftMode::Normal);
    assert!(node1.msg_log.latest_stable_checkpoint.is_none());

    for peer in 0..3 {
        let msg = mock_msg(PbftMessageType::Checkpoint, 0, 10, &block, peer);
        node1.on_peer_message(msg, &genesis_chain()).unwrap_or_else(handle_pbft_err);
    }

    assert_eq!(node1.state.mode, PbftMode::Normal);
    assert!(node1.msg_log.latest_stable_checkpoint.is_some());
}

#[test]
fn view_change() {
    let mut node1 = mock_node(1);
    assert!(!node1.state.is_primary());

    for peer in 0..3 {
        if peer < 2 {
            assert_eq!(node1.state.mode, PbftMode::Normal);
        } else {
            assert_eq!(node1.state.mode, PbftMode::ViewChanging);
        }
        node1.on_peer_message(mock_view_change(1, 1, peer), &genesis_chain()).unwrap_or_else(handle_pbft_err);
    }

    assert!(node1.state.is_primary());
    assert_eq!(node1.state.view, 1);
}

#[test]
fn start_view_change() {
    let mut node1 = mock_node(1);
    assert_eq!(node1.state.mode, PbftMode::Normal);
    node1.start_view_change().unwrap_or_else(handle_pbft_err);
    assert_eq!(node1.state.mode, PbftMode::ViewChanging);
}
