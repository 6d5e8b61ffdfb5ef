//! The messages and outcomes of the engine API as the tree handles them.
use vstd::prelude::*;
use crate::primitives::{Address, B256, BlockNumber, Transaction, Withdrawal};

verus! {

/// Block data as the consensus layer sends it: a block without ommers and senders.
#[derive(Clone, Debug)]
pub struct ExecutionPayload {
    pub parent_hash: B256,
    pub fee_recipient: Address,
    pub state_root: B256,
    pub receipts_root: B256,
    pub prev_randao: B256,
    pub block_number: BlockNumber,
    pub gas_limit: u64,
    pub gas_used: u64,
    pub timestamp: u64,
    pub extra_data: Vec<u8>,
    pub base_fee_per_gas: Option<u64>,
    /// The hash that the consensus layer declares for the block.
    pub block_hash: B256,
    pub transactions: Vec<Transaction>,
    pub withdrawals: Option<Vec<Withdrawal>>,
    pub blob_gas_used: Option<u64>,
    pub excess_blob_gas: Option<u64>,
}

/// The fields that come beside a payload from Cancun on.
#[derive(Clone, Debug)]
pub struct CancunPayloadFields {
    pub parent_beacon_block_root: B256,
    /// The blob versioned hashes that the payload's transactions must carry, in order.
    pub versioned_hashes: Vec<B256>,
}

/// Why a payload is not a well-formed block.
#[derive(Clone, Copy, Debug, PartialEq, Eq, Structural)]
pub enum PayloadError {
    /// The extra data is longer than 32 bytes.
    ExtraData,
    /// The base fee is missing.
    BaseFee,
    /// The declared block hash differs from the hash of the header.
    BlockHash { execution: B256, consensus: B256 },
    /// Blob transactions in a block before Cancun.
    PreCancunBlockWithBlobTransactions,
    /// Blob gas fields in a block before Cancun.
    PreCancunBlockWithBlobGasFields,
    /// Cancun fields sent with a block before Cancun.
    PreCancunWithCancunFields,
    /// A block after Cancun without its blob gas fields.
    PostCancunBlockWithoutBlobGasFields,
    /// A block after Cancun sent without Cancun fields.
    PostCancunWithoutCancunFields,
    /// Withdrawals in a block before Shanghai.
    PreShanghaiBlockWithWithdrawals,
    /// A block after Shanghai without withdrawals.
    PostShanghaiBlockWithoutWithdrawals,
    /// The versioned hashes of the block's transactions differ from the expected ones.
    InvalidVersionedHashes,
}

impl PayloadError {
    /// Whether the declared hash differs from the header's.
    pub fn is_block_hash_mismatch(&self) -> (r: bool)
        ensures
            r <==> *self is BlockHash,
    {
        matches!(self, PayloadError::BlockHash { .. })
    }

    /// Whether the versioned hashes differ from the expected ones.
    pub fn is_invalid_versioned_hashes(&self) -> (r: bool)
        ensures
            r <==> *self is InvalidVersionedHashes,
    {
        matches!(self, PayloadError::InvalidVersionedHashes)
    }
}

/// A violation of the consensus rules by a block.
#[derive(Clone, Copy, Debug, PartialEq, Eq, Structural)]
pub enum ConsensusError {
    /// A proof-of-stake block with nonzero difficulty.
    TheMergeDifficultyIsNotZero,
    /// A proof-of-stake block with a nonzero nonce.
    TheMergeNonceIsNotZero,
    /// A proof-of-stake block with ommers.
    TheMergeOmmerRootIsNotEmpty,
    /// More gas used than the gas limit allows.
    HeaderGasUsedExceedsGasLimit { gas_used: u64, gas_limit: u64 },
    /// The base fee is missing.
    BaseFeeMissing,
    /// Withdrawals missing after Shanghai.
    WithdrawalsMissing,
    /// Blob gas fields missing after Cancun.
    BlobGasUsedMissing,
    /// The parent beacon block root is missing after Cancun.
    ParentBeaconBlockRootMissing,
    /// The header's blob gas used differs from what the blob transactions consume.
    BlobGasUsedDiff { header_blob_gas_used: u64, expected_blob_gas_used: u128 },
    /// More blob gas used than a block allows.
    BlobGasUsedExceedsMaxBlobGasPerBlock { blob_gas_used: u64 },
    /// The receipts do not add up to the header's gas used.
    BlockGasUsed { got: u64, expected: u64 },
    /// A transaction without a receipt, or a receipt without a transaction.
    ReceiptCountMismatch,
    /// The state root after execution differs from the header's.
    StateRootMismatch { got: B256, expected: B256 },
}

/// Why the engine answers `INVALID`.
#[derive(Clone, Copy, Debug, PartialEq, Eq, Structural)]
pub enum ValidationError {
    /// The payload is not a well-formed block.
    Payload(PayloadError),
    /// A transaction's signature recovers to no sender.
    SenderRecovery,
    /// The block breaks a consensus rule.
    Consensus(ConsensusError),
    /// The block descends from a block known to be invalid.
    LinksToRejectedPayload,
    /// The forkchoice head is the zero hash.
    ZeroForkchoiceHead,
}

/// The status of a payload, as the consensus layer reads it.
#[derive(Clone, Copy, Debug, PartialEq, Eq, Structural)]
pub enum PayloadStatusEnum {
    Valid,
    Invalid { validation_error: ValidationError },
    Syncing,
    Accepted,
}

/// A payload status with the latest valid hash.
#[derive(Clone, Copy, Debug, PartialEq, Eq, Structural)]
pub struct PayloadStatus {
    pub status: PayloadStatusEnum,
    pub latest_valid_hash: Option<B256>,
}

impl PayloadStatus {
    /// A status with the given latest valid hash.
    pub fn new(status: PayloadStatusEnum, latest_valid_hash: Option<B256>) -> (r: PayloadStatus)
        ensures
            r == (PayloadStatus { status, latest_valid_hash }),
    {
        PayloadStatus { status, latest_valid_hash }
    }

    /// A status without a latest valid hash.
    pub fn from_status(status: PayloadStatusEnum) -> (r: PayloadStatus)
        ensures
            r == (PayloadStatus { status, latest_valid_hash: None }),
    {
        PayloadStatus { status, latest_valid_hash: None }
    }

    /// Whether the status is `VALID`.
    pub fn is_valid(&self) -> (r: bool)
        ensures
            r <==> self.status is Valid,
    {
        matches!(self.status, PayloadStatusEnum::Valid)
    }

    /// Whether the status is `INVALID`.
    pub fn is_invalid(&self) -> (r: bool)
        ensures
            r <==> self.status is Invalid,
    {
        matches!(self.status, PayloadStatusEnum::Invalid { .. })
    }

    /// Whether the status is `SYNCING`.
    pub fn is_syncing(&self) -> (r: bool)
        ensures
            r <==> self.status is Syncing,
    {
        matches!(self.status, PayloadStatusEnum::Syncing)
    }
}

/// The forkchoice state that the consensus layer declares.
#[derive(Clone, Copy, Debug, PartialEq, Eq, Structural)]
pub struct ForkchoiceState {
    pub head_block_hash: B256,
    pub safe_block_hash: B256,
    pub finalized_block_hash: B256,
}

/// Attributes for building a payload on top of the forkchoice head.
#[derive(Clone, Copy, Debug, PartialEq, Eq, Structural)]
pub struct PayloadAttributes {
    pub timestamp: u64,
    pub prev_randao: B256,
    pub suggested_fee_recipient: Address,
    pub parent_beacon_block_root: Option<B256>,
}

/// The answer to a forkchoice update: the status of the head, and the
/// attributes to hand on to the payload builder when a payload is to be built.
#[derive(Clone, Copy, Debug, PartialEq, Eq, Structural)]
pub struct OnForkChoiceUpdated {
    pub payload_status: PayloadStatus,
    pub build_payload: Option<PayloadAttributes>,
}

/// Why a forkchoice state is refused as a whole.
#[derive(Clone, Copy, Debug, PartialEq, Eq, Structural)]
pub enum ForkchoiceUpdateError {
    /// The finalized block is not an ancestor of the head.
    InvalidState,
}

/// The actions that can be performed on the tree.
#[derive(Clone, Copy, Debug, PartialEq, Eq, Structural)]
pub enum TreeAction {
    /// Make target canonical.
    MakeCanonical(B256),
}

/// What the tree asks of the full-sync pipeline.
#[derive(Clone, Copy, Debug, PartialEq, Eq, Structural)]
pub enum BackfillAction {
    /// Start a backfill sync towards the target.
    Start { target: B256 },
}

/// Blocks the tree asks the downloader for.
#[derive(Clone, Copy, Debug, PartialEq, Eq, Structural)]
pub enum DownloadRequest {
    /// The block with this hash.
    Block(B256),
}

/// Events that the tree hands to its caller.
#[derive(Clone, Copy, Debug, PartialEq, Eq, Structural)]
pub enum TreeEvent {
    /// Tree action is needed.
    TreeAction(TreeAction),
    /// Backfill action is needed.
    BackfillAction(BackfillAction),
    /// Block download is needed.
    Download(DownloadRequest),
}

/// The outcome of a tree operation.
#[derive(Debug)]
pub struct TreeOutcome<T> {
    /// The outcome of the operation.
    pub outcome: T,
    /// An optional event to tell the caller to do something.
    pub event: Option<TreeEvent>,
}

impl<T> TreeOutcome<T> {
    /// Create new tree outcome.
    pub fn new(outcome: T) -> (r: TreeOutcome<T>)
        ensures
            r.outcome == outcome,
            r.event is None,
    {
        TreeOutcome { outcome, event: None }
    }

    /// Set event on the outcome.
    pub fn with_event(self, event: TreeEvent) -> (r: TreeOutcome<T>)
        ensures
            r.outcome == self.outcome,
            r.event == Some(event),
    {
        TreeOutcome { outcome: self.outcome, event: Some(event) }
    }
}

} // verus!
