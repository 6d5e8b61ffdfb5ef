//! Identifiers of the stages of the sync pipeline.
use vstd::prelude::*;

verus! {

/// Stage IDs for all known stages.
///
/// For custom stages, use [`StageId::Other`].
#[derive(Clone, Copy, Debug, PartialEq, Eq, Hash)]
pub enum StageId {
    /// Static file stage; static files are now produced outside of the pipeline.
    StaticFile,
    /// Header stage in the process.
    Headers,
    /// Bodies stage in the process.
    Bodies,
    /// Sender recovery stage in the process.
    SenderRecovery,
    /// Execution stage in the process.
    Execution,
    /// Merkle unwind stage in the process.
    MerkleUnwind,
    /// Account hashing stage in the process.
    AccountHashing,
    /// Storage hashing stage in the process.
    StorageHashing,
    /// Merkle execute stage in the process.
    MerkleExecute,
    /// Transaction lookup stage in the process.
    TransactionLookup,
    /// Index storage history stage in the process.
    IndexStorageHistory,
    /// Index account history stage in the process.
    IndexAccountHistory,
    /// Finish stage in the process.
    Finish,
    /// Other custom stage with a provided string identifier.
    Other(&'static str),
}

/// The name of a stage, as `as_str` returns it.
pub open spec fn stage_name(id: StageId) -> Seq<char> {
    match id {
        StageId::StaticFile => "StaticFile"@,
        StageId::Headers => "Headers"@,
        StageId::Bodies => "Bodies"@,
        StageId::SenderRecovery => "SenderRecovery"@,
        StageId::Execution => "Execution"@,
        StageId::MerkleUnwind => "MerkleUnwind"@,
        StageId::AccountHashing => "AccountHashing"@,
        StageId::StorageHashing => "StorageHashing"@,
        StageId::MerkleExecute => "MerkleExecute"@,
        StageId::TransactionLookup => "TransactionLookup"@,
        StageId::IndexAccountHistory => "IndexAccountHistory"@,
        StageId::IndexStorageHistory => "IndexStorageHistory"@,
        StageId::Finish => "Finish"@,
        StageId::Other(s) => s@,
    }
}

impl StageId {
    /// All supported stages, in pipeline order: headers come first.
    pub const ALL: [StageId; 12] = [
        StageId::Headers,
        StageId::Bodies,
        StageId::SenderRecovery,
        StageId::Execution,
        StageId::MerkleUnwind,
        StageId::AccountHashing,
        StageId::StorageHashing,
        StageId::MerkleExecute,
        StageId::TransactionLookup,
        StageId::IndexStorageHistory,
        StageId::IndexAccountHistory,
        StageId::Finish,
    ];

    /// Stages that require state.
    pub const STATE_REQUIRED: [StageId; 7] = [
        StageId::Execution,
        StageId::MerkleUnwind,
        StageId::AccountHashing,
        StageId::StorageHashing,
        StageId::MerkleExecute,
        StageId::IndexStorageHistory,
        StageId::IndexAccountHistory,
    ];

    /// Return stage id formatted as string.
    pub fn as_str(&self) -> (r: &str)
        ensures
            r@ == stage_name(*self),
    {
        match self {
            StageId::StaticFile => "StaticFile",
            StageId::Headers => "Headers",
            StageId::Bodies => "Bodies",
            StageId::SenderRecovery => "SenderRecovery",
            StageId::Execution => "Execution",
            StageId::MerkleUnwind => "MerkleUnwind",
            StageId::AccountHashing => "AccountHashing",
            StageId::StorageHashing => "StorageHashing",
            StageId::MerkleExecute => "MerkleExecute",
            StageId::TransactionLookup => "TransactionLookup",
            StageId::IndexAccountHistory => "IndexAccountHistory",
            StageId::IndexStorageHistory => "IndexStorageHistory",
            StageId::Finish => "Finish",
            StageId::Other(s) => *s,
        }
    }

    /// The stage's name as an owned string.
    pub fn to_string(&self) -> (r: String)
        ensures
            r@ == stage_name(*self),
    {
        self.as_str().to_owned()
    }

    /// Returns true if it's a downloading stage [`StageId::Headers`] or [`StageId::Bodies`].
    pub fn is_downloading_stage(&self) -> (r: bool)
        ensures
            r <==> (*self is Headers || *self is Bodies),
    {
        matches!(self, StageId::Headers | StageId::Bodies)
    }

    /// Returns `true` if it's the [`TransactionLookup`](StageId::TransactionLookup) stage.
    pub fn is_tx_lookup(&self) -> (r: bool)
        ensures
            r <==> *self is TransactionLookup,
    {
        matches!(self, StageId::TransactionLookup)
    }

    /// Returns true if it's the finish stage [`StageId::Finish`].
    pub fn is_finish(&self) -> (r: bool)
        ensures
            r <==> *self is Finish,
    {
        matches!(self, StageId::Finish)
    }
}

} // verus!
