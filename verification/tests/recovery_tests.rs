use smmu::fault::recovery::{FaultRecovery, RecoveryResult, RecoveryStrategy};
use smmu::types::{AccessType, FaultRecord, FaultType, StreamID, IOVA, PASID};

fn recovery_fault(fault_type: FaultType) -> FaultRecord {
    FaultRecord::builder()
        .stream_id(StreamID::new(0x100).unwrap())
        .pasid(PASID::new(1).unwrap())
        .address(IOVA::new(0x1000_0000).unwrap())
        .fault_type(fault_type)
        .access_type(AccessType::Read)
        .build()
}

#[test]
fn test_recommended_strategy_translation_fault() {
    let recovery = FaultRecovery::new();
    let fault = recovery_fault(FaultType::TranslationFault);
    let strategy = recovery.get_recommended_strategy(&fault);
    assert!(matches!(strategy, RecoveryStrategy::Retry { .. }));
}

#[test]
fn test_recommended_strategy_permission_fault() {
    let recovery = FaultRecovery::new();
    let fault = recovery_fault(FaultType::PermissionFault);
    let strategy = recovery.get_recommended_strategy(&fault);
    assert_eq!(strategy, RecoveryStrategy::Terminate);
}

#[test]
fn test_retry_limit() {
    let mut recovery = FaultRecovery::new();
    let fault = recovery_fault(FaultType::TranslationFault);

    let strategy = RecoveryStrategy::Retry { max_attempts: 3 };

    // First two attempts should retry
    assert_eq!(
        recovery.attempt_recovery(&fault, strategy),
        RecoveryResult::Retry
    );
    assert_eq!(
        recovery.attempt_recovery(&fault, strategy),
        RecoveryResult::Retry
    );

    // Third attempt should be unrecoverable
    assert_eq!(
        recovery.attempt_recovery(&fault, strategy),
        RecoveryResult::Unrecoverable
    );
}

#[test]
fn test_state_save_restore() {
    let mut recovery = FaultRecovery::new();
    let fault = recovery_fault(FaultType::TranslationFault);

    // Perform some recovery attempts
    let strategy = RecoveryStrategy::Retry { max_attempts: 3 };
    recovery.attempt_recovery(&fault, strategy);

    // Save state
    let state = recovery.save_state(&fault);
    assert_eq!(state.retry_count(), 1);

    // Clear and restore
    recovery.clear_state(&fault);
    assert!(recovery.restore_state(&fault, state).is_ok());

    // State should be restored
    let restored = recovery.save_state(&fault);
    assert_eq!(restored.retry_count(), 1);
}
