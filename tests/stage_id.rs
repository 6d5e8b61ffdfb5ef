use engine_tree::stage_id::StageId;

#[test]
fn stage_id_as_string() {
    assert_eq!(StageId::Headers.to_string(), "Headers");
    assert_eq!(StageId::Bodies.to_string(), "Bodies");
    assert_eq!(StageId::SenderRecovery.to_string(), "SenderRecovery");
    assert_eq!(StageId::Execution.to_string(), "Execution");
    assert_eq!(StageId::MerkleUnwind.to_string(), "MerkleUnwind");
    assert_eq!(StageId::AccountHashing.to_string(), "AccountHashing");
    assert_eq!(StageId::StorageHashing.to_string(), "StorageHashing");
    assert_eq!(StageId::MerkleExecute.to_string(), "MerkleExecute");
    assert_eq!(StageId::IndexAccountHistory.to_string(), "IndexAccountHistory");
    assert_eq!(StageId::IndexStorageHistory.to_string(), "IndexStorageHistory");
    assert_eq!(StageId::TransactionLookup.to_string(), "TransactionLookup");
    assert_eq!(StageId::Finish.to_string(), "Finish");

    assert_eq!(StageId::Other("Foo").to_string(), "Foo");
}

#[test]
fn is_downloading_stage() {
    assert!(StageId::Headers.is_downloading_stage());
    assert!(StageId::Bodies.is_downloading_stage());

    assert!(!StageId::Execution.is_downloading_stage());
}

#[test]
fn stage_all_headers_first() {
    assert_eq!(*StageId::ALL.first().unwrap(), StageId::Headers);
}

#[test]
fn stage_as_str_matches_name() {
    assert_eq!(StageId::StaticFile.as_str(), "StaticFile");
    assert_eq!(StageId::Other("Custom").as_str(), "Custom");
    assert_eq!(StageId::Finish.as_str(), "Finish");
}

#[test]
fn stage_predicates() {
    assert!(StageId::TransactionLookup.is_tx_lookup());
    assert!(!StageId::Headers.is_tx_lookup());
    assert!(StageId::Finish.is_finish());
    assert!(!StageId::Execution.is_finish());
    assert!(!StageId::Other("Headers").is_downloading_stage());
}

#[test]
fn stage_lists() {
    assert_eq!(StageId::ALL.len(), 12);
    assert_eq!(*StageId::ALL.last().unwrap(), StageId::Finish);
    assert_eq!(StageId::STATE_REQUIRED[0], StageId::Execution);
    assert!(!StageId::ALL.contains(&StageId::StaticFile));
}
