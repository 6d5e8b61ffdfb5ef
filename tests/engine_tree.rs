use engine_tree::block_buffer::BlockBuffer;
use engine_tree::engine_types::{
    BackfillAction, CancunPayloadFields, ConsensusError, DownloadRequest, ExecutionPayload, ForkchoiceState,
    ForkchoiceUpdateError, PayloadAttributes, PayloadError, PayloadStatus, PayloadStatusEnum, TreeAction, TreeEvent,
    ValidationError,
};
use engine_tree::execution::{Account, AccountChange, BlockExecutionOutput, ExecutedBlock, Receipt, StorageChange};
use engine_tree::invalid_cache::{InvalidHeaderCache, INVALID_HEADER_CACHE_CAPACITY};
use engine_tree::payload_validator::{ensure_well_formed_payload, ChainSpec};
use engine_tree::primitives::{Address, SealedBlock, SealedBlockWithSenders, SealedHeader, Transaction, B256};
use engine_tree::provider::{InMemoryProvider, StateSnapshot};
use engine_tree::tree::{EngineApiTreeHandlerImpl, ExecutionRequest, NewPayloadStep};
use engine_tree::tree_state::TreeState;

fn h(n: u64) -> B256 {
    B256::from_low_u64(n)
}

fn addr(n: u64) -> Address {
    Address::from_low_u64(n)
}

fn header(hash: u64, parent: u64, number: u64) -> SealedHeader {
    SealedHeader {
        hash: h(hash),
        parent_hash: h(parent),
        number,
        difficulty: 0,
        nonce: 0,
        state_root: h(1000 + hash),
        receipts_root: B256::zero(),
        gas_limit: 30_000_000,
        gas_used: 0,
        timestamp: number * 12,
        base_fee_per_gas: Some(7),
        blob_gas_used: None,
        excess_blob_gas: None,
        parent_beacon_block_root: None,
    }
}

fn payload(hash: u64, parent: u64, number: u64) -> ExecutionPayload {
    ExecutionPayload {
        parent_hash: h(parent),
        fee_recipient: addr(7),
        state_root: h(1000 + hash),
        receipts_root: B256::zero(),
        prev_randao: B256::zero(),
        block_number: number,
        gas_limit: 30_000_000,
        gas_used: 0,
        timestamp: number * 12,
        extra_data: vec![],
        base_fee_per_gas: Some(7),
        block_hash: h(hash),
        transactions: vec![],
        withdrawals: None,
        blob_gas_used: None,
        excess_blob_gas: None,
    }
}

fn tx(n: u64, signer: Option<u64>, blobs: Vec<B256>) -> Transaction {
    Transaction { hash: h(5000 + n), signer: signer.map(addr), gas_limit: 21_000, blob_versioned_hashes: blobs }
}

fn spec() -> ChainSpec {
    ChainSpec { shanghai_time: None, cancun_time: None }
}

fn genesis_state() -> StateSnapshot {
    StateSnapshot {
        accounts: vec![AccountChange {
            address: addr(1),
            info: Some(Account { nonce: 0, balance: 10, code_hash: B256::zero() }),
        }],
        storage: vec![StorageChange { address: addr(1), slot: h(1), value: h(11) }],
    }
}

/// A handler whose persisted chain is the genesis block with hash 1 at height `number`.
fn handler_at(number: u64) -> EngineApiTreeHandlerImpl {
    let provider = InMemoryProvider::new(header(1, 0, number), genesis_state());
    EngineApiTreeHandlerImpl::new(provider, spec(), 16, 32)
}

/// What the stand-in executor yields: one account per block, the header's gas and root.
fn execute(req: &ExecutionRequest) -> BlockExecutionOutput {
    let header = req.block.block.header;
    let mut receipts = Vec::new();
    for (i, _) in req.block.block.body.iter().enumerate() {
        receipts.push(Receipt { success: true, cumulative_gas_used: 21_000 * (i as u64 + 1) });
    }
    BlockExecutionOutput {
        account_changes: vec![AccountChange {
            address: addr(9),
            info: Some(Account { nonce: header.number, balance: 100 + header.number as u128, code_hash: B256::zero() }),
        }],
        storage_changes: vec![StorageChange { address: addr(9), slot: h(2), value: h(header.number) }],
        receipts,
        requests: vec![],
        state_root: header.state_root,
    }
}

/// Sends a payload and, when the tree asks for it, executes the block.
fn submit(handler: &mut EngineApiTreeHandlerImpl, p: ExecutionPayload) -> (PayloadStatus, Option<TreeEvent>) {
    let hash = p.block_hash;
    match handler.on_new_payload(p, None, hash).unwrap() {
        NewPayloadStep::Status(o) => (o.outcome, o.event),
        NewPayloadStep::Execute(req) => {
            let out = execute(&req);
            let o = handler.on_block_executed(req.block, out);
            (o.outcome, o.event)
        },
    }
}

fn valid(hash: u64) -> PayloadStatus {
    PayloadStatus { status: PayloadStatusEnum::Valid, latest_valid_hash: Some(h(hash)) }
}

fn syncing() -> PayloadStatus {
    PayloadStatus { status: PayloadStatusEnum::Syncing, latest_valid_hash: None }
}

fn fcu(head: u64, safe: u64, finalized: u64) -> ForkchoiceState {
    ForkchoiceState { head_block_hash: h(head), safe_block_hash: h(safe), finalized_block_hash: h(finalized) }
}

fn sealed(hash: u64, parent: u64, number: u64) -> SealedBlockWithSenders {
    SealedBlockWithSenders {
        block: SealedBlock { header: header(hash, parent, number), body: vec![], ommers: vec![], withdrawals: None },
        senders: vec![],
    }
}

fn executed(hash: u64, parent: u64, number: u64) -> ExecutedBlock {
    let b = sealed(hash, parent, number);
    let out = BlockExecutionOutput {
        account_changes: vec![],
        storage_changes: vec![],
        receipts: vec![],
        requests: vec![],
        state_root: b.block.header.state_root,
    };
    ExecutedBlock::new(b, out)
}

#[test]
fn happy_path_payload_then_forkchoice() {
    let mut handler = handler_at(0);
    let (status, event) = submit(&mut handler, payload(2, 1, 1));
    assert_eq!(status, valid(2));
    assert!(event.is_none());
    assert!(handler.block_by_hash(h(2)).is_some());
    let answer = handler.on_forkchoice_updated(fcu(2, 1, 1), None);
    let updated = answer.outcome.unwrap();
    assert_eq!(updated.payload_status, valid(2));
    assert!(answer.event.is_none());
    assert_eq!(handler.canonical_head.hash, h(2));
    assert_eq!(handler.canonical_head.number, 1);
}

#[test]
fn new_payload_asks_for_execution_on_parent_state() {
    let mut handler = handler_at(0);
    match handler.on_new_payload(payload(2, 1, 1), None, h(2)).unwrap() {
        NewPayloadStep::Execute(req) => {
            assert_eq!(req.block.hash(), h(2));
            assert_eq!(req.state.in_memory.len(), 0);
            assert_eq!(req.state.account(addr(1)).unwrap().balance, 10);
        },
        NewPayloadStep::Status(_) => panic!("expected an execution request"),
    }
}

#[test]
fn valid_block_reads_back_its_state() {
    let mut handler = handler_at(0);
    assert_eq!(submit(&mut handler, payload(2, 1, 1)).0, valid(2));
    assert_eq!(submit(&mut handler, payload(3, 2, 2)).0, valid(3));
    let overlay = handler.state_provider(h(3)).unwrap();
    assert_eq!(overlay.in_memory.len(), 2);
    let account = overlay.account(addr(9)).unwrap();
    assert_eq!(account.nonce, 2);
    assert_eq!(account.balance, 102);
    assert_eq!(overlay.storage(addr(9), h(2)), h(2));
    assert_eq!(overlay.account(addr(1)).unwrap().balance, 10);
    assert_eq!(overlay.storage(addr(1), h(1)), h(11));
    assert_eq!(overlay.storage(addr(1), h(5)), B256::zero());
    assert_eq!(overlay.block_hash(1), Some(h(2)));
    assert_eq!(overlay.block_hash(7), None);
    assert_eq!(overlay.block_hash(0), Some(h(1)));
    assert_eq!(overlay.block_hash(2), Some(h(3)));
    let older = handler.state_provider(h(2)).unwrap();
    assert_eq!(older.account(addr(9)).unwrap().balance, 101);
}

#[test]
fn resubmitted_payload_is_answered_the_same() {
    let mut handler = handler_at(0);
    let first = submit(&mut handler, payload(2, 1, 1)).0;
    let unrelated = submit(&mut handler, payload(7, 1, 1)).0;
    assert_eq!(unrelated, valid(7));
    let second = submit(&mut handler, payload(2, 1, 1)).0;
    assert_eq!(first, second);
}

#[test]
fn detached_payload_is_buffered_then_connected() {
    let mut handler = handler_at(0);
    let (status, _) = submit(&mut handler, payload(3, 2, 2));
    assert_eq!(status, syncing());
    assert!(handler.state.buffer.contains(h(3)));
    assert!(handler.block_by_hash(h(3)).is_none());
    assert_eq!(submit(&mut handler, payload(2, 1, 1)).0, valid(2));
    let req = handler.connect_buffered_child(h(2)).unwrap().unwrap();
    assert_eq!(req.block.hash(), h(3));
    let out = execute(&req);
    let outcome = handler.on_block_executed(req.block, out);
    assert_eq!(outcome.outcome, valid(3));
    assert!(!handler.state.buffer.contains(h(3)));
    assert!(handler.connect_buffered_child(h(3)).unwrap().is_none());
}

#[test]
fn invalid_ancestor_propagates() {
    let mut handler = handler_at(0);
    let mut bad = payload(2, 1, 1);
    bad.gas_used = 40_000_000;
    let (status, _) = submit(&mut handler, bad);
    assert_eq!(
        status.status,
        PayloadStatusEnum::Invalid {
            validation_error: ValidationError::Consensus(ConsensusError::HeaderGasUsedExceedsGasLimit {
                gas_used: 40_000_000,
                gas_limit: 30_000_000,
            }),
        }
    );
    assert_eq!(status.latest_valid_hash, Some(h(1)));
    assert!(handler.state.invalid_headers.contains(h(2)));
    let (status, event) = submit(&mut handler, payload(3, 2, 2));
    assert_eq!(
        status,
        PayloadStatus {
            status: PayloadStatusEnum::Invalid { validation_error: ValidationError::LinksToRejectedPayload },
            latest_valid_hash: Some(h(1)),
        }
    );
    assert!(event.is_none());
    assert!(handler.state.invalid_headers.contains(h(3)));
    let (status, _) = submit(&mut handler, payload(4, 3, 3));
    assert_eq!(status.latest_valid_hash, Some(h(1)));
    assert!(handler.state.invalid_headers.contains(h(4)));
}

#[test]
fn invalid_ancestor_of_buffered_chain() {
    let mut handler = handler_at(0);
    let mut bad = payload(2, 1, 1);
    bad.gas_used = 40_000_000;
    submit(&mut handler, bad);
    handler.on_backfill_sync_started();
    assert_eq!(submit(&mut handler, payload(4, 3, 3)).0, syncing());
    handler.on_backfill_sync_finished();
    handler.state.buffer.insert_block(sealed(3, 2, 2));
    let (status, _) = submit(&mut handler, payload(4, 3, 3));
    assert!(status.is_invalid());
    assert_eq!(status.latest_valid_hash, Some(h(1)));
    assert!(handler.state.invalid_headers.contains(h(4)));
}

#[test]
fn block_hash_mismatch_has_no_latest_valid_hash() {
    let mut handler = handler_at(0);
    let p = payload(2, 1, 1);
    let outcome = match handler.on_new_payload(p, None, h(6)).unwrap() {
        NewPayloadStep::Status(o) => o,
        NewPayloadStep::Execute(_) => panic!("expected a status"),
    };
    assert_eq!(
        outcome.outcome,
        PayloadStatus {
            status: PayloadStatusEnum::Invalid {
                validation_error: ValidationError::Payload(PayloadError::BlockHash { execution: h(6), consensus: h(2) }),
            },
            latest_valid_hash: None,
        }
    );
    assert!(outcome.event.is_none());
    assert!(!handler.state.invalid_headers.contains(h(2)));
}

fn cancun_spec() -> ChainSpec {
    ChainSpec { shanghai_time: Some(0), cancun_time: Some(0) }
}

fn cancun_payload(hash: u64, parent: u64, number: u64) -> ExecutionPayload {
    let mut p = payload(hash, parent, number);
    p.withdrawals = Some(vec![]);
    p.blob_gas_used = Some(131072);
    p.excess_blob_gas = Some(0);
    p.transactions = vec![tx(1, Some(3), vec![h(77)])];
    p.gas_used = 21_000;
    p
}

#[test]
fn versioned_hash_mismatch_has_no_latest_valid_hash() {
    let provider = InMemoryProvider::new(header(1, 0, 0), genesis_state());
    let mut handler = EngineApiTreeHandlerImpl::new(provider, cancun_spec(), 16, 32);
    let fields = CancunPayloadFields { parent_beacon_block_root: h(40), versioned_hashes: vec![h(78)] };
    match handler.on_new_payload(cancun_payload(2, 1, 1), Some(fields), h(2)).unwrap() {
        NewPayloadStep::Status(o) => assert_eq!(
            o.outcome,
            PayloadStatus {
                status: PayloadStatusEnum::Invalid {
                    validation_error: ValidationError::Payload(PayloadError::InvalidVersionedHashes),
                },
                latest_valid_hash: None,
            }
        ),
        NewPayloadStep::Execute(_) => panic!("expected a status"),
    }
    let fields = CancunPayloadFields { parent_beacon_block_root: h(40), versioned_hashes: vec![h(77)] };
    match handler.on_new_payload(cancun_payload(2, 1, 1), Some(fields), h(2)).unwrap() {
        NewPayloadStep::Execute(req) => {
            assert_eq!(req.block.block.header.parent_beacon_block_root, Some(h(40)));
            assert_eq!(req.block.senders, vec![addr(3)]);
            let out = execute(&req);
            assert_eq!(handler.on_block_executed(req.block, out).outcome, valid(2));
        },
        NewPayloadStep::Status(o) => panic!("unexpected status {:?}", o.outcome),
    }
}

#[test]
fn other_payload_errors_carry_latest_valid_hash() {
    let mut handler = handler_at(0);
    let mut p = payload(2, 1, 1);
    p.extra_data = vec![0u8; 33];
    let (status, _) = submit(&mut handler, p);
    assert_eq!(
        status,
        PayloadStatus {
            status: PayloadStatusEnum::Invalid { validation_error: ValidationError::Payload(PayloadError::ExtraData) },
            latest_valid_hash: Some(h(1)),
        }
    );
    let mut p = payload(3, 50, 1);
    p.base_fee_per_gas = None;
    let (status, _) = submit(&mut handler, p);
    assert_eq!(status.status, PayloadStatusEnum::Invalid { validation_error: ValidationError::Payload(PayloadError::BaseFee) });
    assert_eq!(status.latest_valid_hash, None);
}

#[test]
fn payload_validation_errors_by_fork() {
    let pre = spec();
    let post = cancun_spec();
    let with_blobs = cancun_payload(2, 1, 1);
    let r = ensure_well_formed_payload(&pre, with_blobs, None, h(2));
    assert_eq!(r.unwrap_err(), PayloadError::PreCancunBlockWithBlobTransactions);
    let mut p = payload(2, 1, 1);
    p.blob_gas_used = Some(0);
    assert_eq!(ensure_well_formed_payload(&pre, p, None, h(2)).unwrap_err(), PayloadError::PreCancunBlockWithBlobGasFields);
    let fields = CancunPayloadFields { parent_beacon_block_root: h(40), versioned_hashes: vec![] };
    assert_eq!(
        ensure_well_formed_payload(&pre, payload(2, 1, 1), Some(fields), h(2)).unwrap_err(),
        PayloadError::PreCancunWithCancunFields
    );
    let mut p = payload(2, 1, 1);
    p.withdrawals = Some(vec![]);
    assert_eq!(ensure_well_formed_payload(&pre, p, None, h(2)).unwrap_err(), PayloadError::PreShanghaiBlockWithWithdrawals);
    assert_eq!(
        ensure_well_formed_payload(&post, payload(2, 1, 1), None, h(2)).unwrap_err(),
        PayloadError::PostCancunBlockWithoutBlobGasFields
    );
    assert_eq!(
        ensure_well_formed_payload(&post, cancun_payload(2, 1, 1), None, h(2)).unwrap_err(),
        PayloadError::PostCancunWithoutCancunFields
    );
    let mut p = cancun_payload(2, 1, 1);
    p.withdrawals = None;
    let fields = CancunPayloadFields { parent_beacon_block_root: h(40), versioned_hashes: vec![h(77)] };
    assert_eq!(
        ensure_well_formed_payload(&post, p, Some(fields), h(2)).unwrap_err(),
        PayloadError::PostShanghaiBlockWithoutWithdrawals
    );
    let block = ensure_well_formed_payload(&pre, payload(2, 1, 1), None, h(2)).unwrap();
    assert_eq!(block.header, header(2, 1, 1));
}

#[test]
fn unsigned_transaction_is_invalid() {
    let mut handler = handler_at(0);
    let mut p = payload(2, 1, 1);
    p.transactions = vec![tx(1, Some(3), vec![]), tx(2, None, vec![])];
    let (status, _) = submit(&mut handler, p);
    assert_eq!(
        status,
        PayloadStatus {
            status: PayloadStatusEnum::Invalid { validation_error: ValidationError::SenderRecovery },
            latest_valid_hash: Some(h(1)),
        }
    );
}

#[test]
fn post_execution_mismatch_is_invalid() {
    let mut handler = handler_at(0);
    let req = match handler.on_new_payload(payload(2, 1, 1), None, h(2)).unwrap() {
        NewPayloadStep::Execute(req) => req,
        NewPayloadStep::Status(_) => panic!("expected an execution request"),
    };
    let mut out = execute(&req);
    out.state_root = h(999);
    let outcome = handler.on_block_executed(req.block, out);
    assert_eq!(
        outcome.outcome.status,
        PayloadStatusEnum::Invalid {
            validation_error: ValidationError::Consensus(ConsensusError::StateRootMismatch { got: h(999), expected: h(1002) }),
        }
    );
    assert_eq!(outcome.outcome.latest_valid_hash, Some(h(1)));
    assert!(handler.state.invalid_headers.contains(h(2)));
    assert!(handler.block_by_hash(h(2)).is_none());
}

#[test]
fn receipts_gas_mismatch_is_invalid() {
    let mut handler = handler_at(0);
    let mut p = payload(2, 1, 1);
    p.transactions = vec![tx(1, Some(3), vec![])];
    p.gas_used = 30_000;
    let req = match handler.on_new_payload(p, None, h(2)).unwrap() {
        NewPayloadStep::Execute(req) => req,
        NewPayloadStep::Status(_) => panic!("expected an execution request"),
    };
    let out = execute(&req);
    let outcome = handler.on_block_executed(req.block, out);
    assert_eq!(
        outcome.outcome.status,
        PayloadStatusEnum::Invalid {
            validation_error: ValidationError::Consensus(ConsensusError::BlockGasUsed { got: 21_000, expected: 30_000 }),
        }
    );
}

#[test]
fn forkchoice_to_unknown_head_downloads() {
    let mut handler = handler_at(0);
    let answer = handler.on_forkchoice_updated(fcu(42, 1, 1), None);
    assert_eq!(answer.outcome.unwrap().payload_status, syncing());
    assert_eq!(answer.event, Some(TreeEvent::Download(DownloadRequest::Block(h(42)))));
    assert_eq!(handler.state.forkchoice_state_tracker.sync_target_state(), Some(fcu(42, 1, 1)));
}

#[test]
fn forkchoice_far_ahead_triggers_backfill() {
    let mut handler = handler_at(100);
    assert_eq!(submit(&mut handler, payload(9, 8, 100_000)).0, syncing());
    let answer = handler.on_forkchoice_updated(fcu(9, 1, 1), None);
    assert_eq!(answer.outcome.unwrap().payload_status, syncing());
    assert_eq!(answer.event, Some(TreeEvent::BackfillAction(BackfillAction::Start { target: h(9) })));
    handler.on_backfill_sync_started();
    let step = handler.on_new_payload(payload(2, 1, 101), None, h(2)).unwrap();
    match step {
        NewPayloadStep::Status(o) => assert_eq!(o.outcome, syncing()),
        NewPayloadStep::Execute(_) => panic!("no execution while the pipeline runs"),
    }
    assert!(handler.block_by_hash(h(2)).is_none());
    assert!(handler.state.buffer.contains(h(2)));
    handler.on_backfill_sync_finished();
    assert_eq!(submit(&mut handler, payload(3, 1, 101)).0, valid(3));
}

#[test]
fn forkchoice_near_buffered_head_downloads_missing_parent() {
    let mut handler = handler_at(0);
    assert_eq!(submit(&mut handler, payload(4, 3, 3)).0, syncing());
    let answer = handler.on_forkchoice_updated(fcu(4, 1, 1), None);
    assert_eq!(answer.event, Some(TreeEvent::Download(DownloadRequest::Block(h(3)))));
}

#[test]
fn forkchoice_zero_head_is_invalid() {
    let mut handler = handler_at(0);
    let answer = handler.on_forkchoice_updated(fcu(0, 0, 0), None);
    let status = answer.outcome.unwrap().payload_status;
    assert_eq!(status.status, PayloadStatusEnum::Invalid { validation_error: ValidationError::ZeroForkchoiceHead });
    assert_eq!(status.latest_valid_hash, None);
}

#[test]
fn forkchoice_invalid_head_is_invalid() {
    let mut handler = handler_at(0);
    let mut bad = payload(2, 1, 1);
    bad.gas_used = 40_000_000;
    submit(&mut handler, bad);
    let answer = handler.on_forkchoice_updated(fcu(2, 1, 1), None);
    let status = answer.outcome.unwrap().payload_status;
    assert!(status.is_invalid());
    assert_eq!(status.latest_valid_hash, Some(h(1)));
}

#[test]
fn forkchoice_with_foreign_finalized_is_refused() {
    let mut handler = handler_at(0);
    submit(&mut handler, payload(2, 1, 1));
    submit(&mut handler, payload(3, 1, 1));
    let answer = handler.on_forkchoice_updated(fcu(2, 1, 3), None);
    assert_eq!(answer.outcome.unwrap_err(), ForkchoiceUpdateError::InvalidState);
    let answer = handler.on_forkchoice_updated(fcu(2, 1, 77), None);
    assert_eq!(answer.outcome.unwrap_err(), ForkchoiceUpdateError::InvalidState);
}

#[test]
fn forkchoice_prunes_below_finalized_and_forwards_attributes() {
    let mut handler = handler_at(0);
    submit(&mut handler, payload(2, 1, 1));
    submit(&mut handler, payload(3, 2, 2));
    submit(&mut handler, payload(4, 3, 3));
    let attrs = PayloadAttributes {
        timestamp: 48,
        prev_randao: h(5),
        suggested_fee_recipient: addr(6),
        parent_beacon_block_root: None,
    };
    let answer = handler.on_forkchoice_updated(fcu(4, 3, 3), Some(attrs));
    let updated = answer.outcome.unwrap();
    assert_eq!(updated.payload_status, valid(4));
    assert_eq!(updated.build_payload, Some(attrs));
    // nothing above the persisted tip is pruned: its state would be lost
    assert_eq!(handler.state.tree_state.len(), 3);
    assert!(handler.state_provider(h(4)).is_ok());
    assert_eq!(handler.canonical_head.number, 3);
}

#[test]
fn forkchoice_prunes_persisted_blocks_from_tree() {
    let mut handler = handler_at(0);
    submit(&mut handler, payload(2, 1, 1));
    submit(&mut handler, payload(3, 2, 2));
    submit(&mut handler, payload(4, 3, 3));
    assert!(handler.provider.persist(header(2, 1, 1), genesis_state()));
    handler.state.buffer.insert_block(sealed(9, 8, 1));
    let answer = handler.on_forkchoice_updated(fcu(4, 3, 3), None);
    assert_eq!(answer.outcome.unwrap().payload_status, valid(4));
    assert_eq!(handler.state.tree_state.len(), 2);
    assert!(!handler.state.tree_state.contains(h(2)));
    assert!(handler.block_by_hash(h(2)).is_some());
    assert!(!handler.state.buffer.contains(h(9)));
    let overlay = handler.state_provider(h(4)).unwrap();
    assert_eq!(overlay.in_memory.len(), 2);
    assert_eq!(overlay.account(addr(9)).unwrap().nonce, 3);
}

#[test]
fn known_block_in_invalid_chain_stops_the_walk() {
    let mut handler = handler_at(0);
    assert_eq!(submit(&mut handler, payload(2, 1, 1)).0, valid(2));
    handler.state.invalid_headers.insert(header(2, 1, 1));
    handler.state.invalid_headers.insert(header(20, 2, 2));
    assert_eq!(handler.latest_valid_hash_for_invalid_payload(h(20)), Some(h(2)));
    handler.state.invalid_headers.insert(header(21, 20, 3));
    assert_eq!(handler.latest_valid_hash_for_invalid_payload(h(21)), Some(h(2)));
}

#[test]
fn invalid_response_without_valid_ancestor_is_null() {
    let mut handler = handler_at(0);
    let status = handler.prepare_invalid_response(h(77));
    assert_eq!(status.latest_valid_hash, None);
    handler.state.invalid_headers.insert(header(30, 77, 1));
    let (status, _) = submit(&mut handler, payload(31, 30, 2));
    assert_eq!(
        status,
        PayloadStatus {
            status: PayloadStatusEnum::Invalid { validation_error: ValidationError::LinksToRejectedPayload },
            latest_valid_hash: None,
        }
    );
}

#[test]
fn buffered_descendants_connect_in_turn() {
    let mut handler = handler_at(0);
    assert_eq!(submit(&mut handler, payload(4, 3, 3)).0, syncing());
    assert_eq!(submit(&mut handler, payload(3, 2, 2)).0, syncing());
    assert_eq!(submit(&mut handler, payload(2, 1, 1)).0, valid(2));
    let mut roots = vec![h(2)];
    let mut executed = Vec::new();
    while let Some(req) = handler.connect_buffered_descendant(&mut roots).unwrap() {
        let child = req.block.hash();
        let out = execute(&req);
        assert_eq!(handler.on_block_executed(req.block, out).outcome, valid(child.lo as u64));
        executed.push(child);
        roots.push(child);
    }
    assert_eq!(executed, vec![h(3), h(4)]);
    assert!(roots.is_empty());
    assert_eq!(handler.state.buffer.len(), 0);
    let mut unknown = vec![h(99)];
    assert!(handler.connect_buffered_descendant(&mut unknown).unwrap().is_none());
}

#[test]
fn block_with_unknown_parent_is_buffered() {
    let mut handler = handler_at(0);
    let answer = handler.on_new_payload(payload(1, 0, 0), None, h(1)).unwrap();
    match answer {
        NewPayloadStep::Status(o) => assert_eq!(o.outcome, syncing()),
        NewPayloadStep::Execute(_) => panic!("the genesis parent is unknown"),
    }
}

#[test]
fn valid_payload_for_sync_target_is_made_canonical() {
    let mut handler = handler_at(0);
    let answer = handler.on_forkchoice_updated(fcu(2, 1, 1), None);
    assert_eq!(answer.event, Some(TreeEvent::Download(DownloadRequest::Block(h(2)))));
    let (status, event) = submit(&mut handler, payload(2, 1, 1));
    assert_eq!(status, valid(2));
    assert_eq!(event, Some(TreeEvent::TreeAction(TreeAction::MakeCanonical(h(2)))));
}

#[test]
fn downloaded_blocks_reach_the_target() {
    let mut handler = handler_at(0);
    handler.on_forkchoice_updated(fcu(3, 1, 1), None);
    let event = handler.on_downloaded(vec![sealed(3, 2, 2)]);
    assert_eq!(event, None);
    let event = handler.on_downloaded(vec![sealed(2, 1, 1)]);
    assert_eq!(event, Some(TreeEvent::TreeAction(TreeAction::MakeCanonical(h(3)))));
    assert!(handler.state.buffer.contains(h(2)));
    let mut bad = sealed(5, 1, 1);
    bad.block.header.difficulty = 3;
    handler.on_downloaded(vec![bad]);
    assert!(handler.state.invalid_headers.contains(h(5)));
    assert!(!handler.state.buffer.contains(h(5)));
}

#[test]
fn proof_of_work_parent_gives_zero_latest_valid_hash() {
    let mut pow = header(1, 0, 0);
    pow.difficulty = 5;
    let provider = InMemoryProvider::new(pow, genesis_state());
    let mut handler = EngineApiTreeHandlerImpl::new(provider, spec(), 16, 32);
    handler.state.invalid_headers.insert(header(2, 1, 1));
    let status = handler.prepare_invalid_response(h(1));
    assert_eq!(status.latest_valid_hash, Some(B256::zero()));
    let (status, _) = submit(&mut handler, payload(3, 2, 2));
    assert_eq!(status.latest_valid_hash, Some(B256::zero()));
}

#[test]
fn latest_valid_hash_walks_the_invalid_chain() {
    let mut handler = handler_at(0);
    assert_eq!(handler.latest_valid_hash_for_invalid_payload(h(1)), Some(h(1)));
    assert_eq!(handler.latest_valid_hash_for_invalid_payload(h(20)), None);
    handler.state.invalid_headers.insert(header(20, 1, 1));
    handler.state.invalid_headers.insert(header(21, 20, 2));
    assert_eq!(handler.latest_valid_hash_for_invalid_payload(h(21)), Some(h(1)));
    handler.state.invalid_headers.insert(header(30, 99, 1));
    assert_eq!(handler.latest_valid_hash_for_invalid_payload(h(30)), None);
}

#[test]
fn latest_valid_hash_unchanged_by_new_invalid_head() {
    let mut handler = handler_at(0);
    handler.state.invalid_headers.insert(header(20, 1, 1));
    handler.state.invalid_headers.insert(header(21, 20, 2));
    let before = handler.latest_valid_hash_for_invalid_payload(h(21));
    handler.state.invalid_headers.insert(header(22, 21, 3));
    assert_eq!(handler.latest_valid_hash_for_invalid_payload(h(21)), before);
    assert_eq!(handler.latest_valid_hash_for_invalid_payload(h(22)), before);
}

#[test]
fn insert_then_remove_above_max_empties_tree() {
    let mut tree = TreeState::new();
    tree.insert_executed(executed(2, 1, 1));
    tree.insert_executed(executed(3, 2, 2));
    tree.insert_executed(executed(4, 2, 2));
    assert_eq!(tree.len(), 3);
    assert!(tree.contains(h(4)));
    assert_eq!(tree.block_hashes_by_number(2), vec![h(3), h(4)]);
    assert_eq!(tree.block_hashes_by_number(1), vec![h(2)]);
    assert!(tree.block_hashes_by_number(9).is_empty());
    tree.remove_before(3);
    assert_eq!(tree.len(), 0);
    assert!(tree.block_hashes_by_number(2).is_empty());
    assert!(tree.block_by_hash(h(2)).is_none());
    assert!(tree.block_by_hash(h(4)).is_none());
}

#[test]
fn remove_before_keeps_higher_blocks() {
    let mut tree = TreeState::new();
    tree.insert_executed(executed(2, 1, 1));
    tree.insert_executed(executed(3, 2, 2));
    tree.insert_executed(executed(4, 3, 3));
    tree.remove_before(2);
    assert_eq!(tree.len(), 2);
    assert!(!tree.contains(h(2)));
    assert_eq!(tree.block_by_hash(h(3)).unwrap().header.number, 2);
    assert_eq!(tree.executed_block_by_hash(h(4)).unwrap().block().hash(), h(4));
    tree.remove_before(0);
    assert_eq!(tree.len(), 2);
}

#[test]
fn invalid_cache_evicts_oldest_when_full() {
    let mut cache = InvalidHeaderCache::new();
    for i in 0..INVALID_HEADER_CACHE_CAPACITY as u64 {
        cache.insert(header(10 + i, 1, 1));
    }
    assert_eq!(cache.len(), INVALID_HEADER_CACHE_CAPACITY);
    cache.insert(header(10, 2, 1));
    assert_eq!(cache.len(), INVALID_HEADER_CACHE_CAPACITY);
    assert_eq!(cache.get(h(10)).unwrap().parent_hash, h(2));
    cache.insert(header(5000, 1, 1));
    assert_eq!(cache.len(), INVALID_HEADER_CACHE_CAPACITY);
    assert!(!cache.contains(h(11)));
    assert!(cache.contains(h(10)));
    assert!(cache.contains(h(5000)));
}

#[test]
fn invalid_cache_links_head_to_ancestor() {
    let mut cache = InvalidHeaderCache::new();
    cache.insert_with_invalid_ancestor(h(7), header(3, 2, 1));
    let record = cache.get(h(7)).unwrap();
    assert_eq!(record.hash, h(7));
    assert_eq!(record.parent_hash, h(3));
    cache.insert_with_invalid_ancestor(h(7), header(4, 2, 1));
    assert_eq!(cache.get(h(7)).unwrap().parent_hash, h(3));
    assert_eq!(cache.len(), 1);
}

#[test]
fn buffer_lowest_ancestor_and_eviction() {
    let mut buffer = BlockBuffer::new(3);
    assert!(buffer.lowest_ancestor(h(4)).is_none());
    buffer.insert_block(sealed(4, 3, 3));
    buffer.insert_block(sealed(3, 2, 2));
    buffer.insert_block(sealed(3, 2, 2));
    assert_eq!(buffer.len(), 2);
    assert_eq!(buffer.lowest_ancestor(h(4)).unwrap().hash(), h(3));
    assert_eq!(buffer.lowest_ancestor(h(3)).unwrap().hash(), h(3));
    buffer.insert_block(sealed(8, 7, 7));
    buffer.insert_block(sealed(9, 8, 8));
    assert_eq!(buffer.len(), 3);
    assert!(!buffer.contains(h(4)));
    assert_eq!(buffer.lowest_ancestor(h(9)).unwrap().hash(), h(8));
    buffer.remove_below(7);
    assert!(!buffer.contains(h(3)));
    assert!(buffer.contains(h(8)));
    let child = buffer.take_child_of(h(8)).unwrap();
    assert_eq!(child.hash(), h(9));
    assert!(buffer.take_child_of(h(8)).is_none());
}

#[test]
fn consensus_rules_reject_pre_merge_fields() {
    let handler = handler_at(0);
    let mut b = sealed(2, 1, 1);
    b.block.header.nonce = 1;
    assert_eq!(handler.validate_block(&b), Err(ConsensusError::TheMergeNonceIsNotZero));
    let mut b = sealed(2, 1, 1);
    b.block.ommers = vec![header(9, 1, 1)];
    assert_eq!(handler.validate_block(&b), Err(ConsensusError::TheMergeOmmerRootIsNotEmpty));
    let mut b = sealed(2, 1, 1);
    b.block.header.base_fee_per_gas = None;
    assert_eq!(handler.validate_block(&b), Err(ConsensusError::BaseFeeMissing));
    assert_eq!(handler.validate_block(&sealed(2, 1, 1)), Ok(()));
}

#[test]
fn blob_gas_must_match_blobs() {
    let provider = InMemoryProvider::new(header(1, 0, 0), genesis_state());
    let mut handler = EngineApiTreeHandlerImpl::new(provider, cancun_spec(), 16, 32);
    let mut p = cancun_payload(2, 1, 1);
    p.blob_gas_used = Some(0);
    let fields = CancunPayloadFields { parent_beacon_block_root: h(40), versioned_hashes: vec![h(77)] };
    match handler.on_new_payload(p, Some(fields), h(2)).unwrap() {
        NewPayloadStep::Status(o) => assert_eq!(
            o.outcome.status,
            PayloadStatusEnum::Invalid {
                validation_error: ValidationError::Consensus(ConsensusError::BlobGasUsedDiff {
                    header_blob_gas_used: 0,
                    expected_blob_gas_used: 131072,
                }),
            }
        ),
        NewPayloadStep::Execute(_) => panic!("expected a status"),
    }
    assert!(handler.state.invalid_headers.contains(h(2)));
}

#[test]
fn persisted_provider_refuses_duplicates() {
    let mut provider = InMemoryProvider::new(header(1, 0, 0), genesis_state());
    assert!(!provider.persist(header(1, 0, 0), genesis_state()));
    assert!(provider.persist(header(2, 1, 1), StateSnapshot { accounts: vec![], storage: vec![] }));
    assert_eq!(provider.tip().hash, h(2));
    assert!(provider.state_by_block_hash(h(1)).is_err());
    assert!(provider.state_by_block_hash(h(2)).is_ok());
    assert_eq!(provider.header_by_hash(h(1)).unwrap().number, 0);
}

#[test]
fn invalid_cache_hit_delays_eviction() {
    let mut cache = InvalidHeaderCache::new();
    for i in 0..INVALID_HEADER_CACHE_CAPACITY as u64 {
        cache.insert(header(10 + i, 1, 1));
    }
    assert_eq!(cache.get(h(10)).unwrap().hash, h(10));
    assert_eq!(cache.peek(h(11)).unwrap().hash, h(11));
    cache.insert(header(6000, 1, 1));
    assert!(cache.contains(h(10)));
    assert!(!cache.contains(h(11)));
    cache.insert(header(6001, 1, 1));
    assert!(!cache.contains(h(12)));
    assert!(cache.get(h(12)).is_none());
}
