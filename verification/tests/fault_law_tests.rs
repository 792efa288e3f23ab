use smmu::fault::codec::RECORD_BYTES;
use smmu::fault::processing::{FaultProcessingError, FaultProcessor, DEFAULT_MAX_EVENTS, MALFORMED_EVENTS};
use smmu::fault::queue::{FaultQueue, FaultQueueError};
use smmu::fault::recovery::{FaultRecovery, RecoveryResult, RecoveryStrategy};
use smmu::types::{AccessType, FaultMode, FaultRecord, FaultType, StreamID, IOVA, PASID};
use std::time::Duration;

fn fault_at(stream: u32, fault_type: FaultType, timestamp: u64) -> FaultRecord {
    FaultRecord::builder()
        .stream_id(StreamID::new(stream).unwrap())
        .pasid(PASID::new(1).unwrap())
        .address(IOVA::new(0x1000).unwrap())
        .fault_type(fault_type)
        .access_type(AccessType::Write)
        .timestamp(timestamp)
        .build()
}

#[test]
fn law_queue_first_in_first_out() {
    let mut queue = FaultQueue::new(3);
    for s in [5u32, 6, 7] {
        queue.push(fault_at(s, FaultType::TranslationFault, 1)).unwrap();
    }
    assert_eq!(queue.push(fault_at(8, FaultType::TranslationFault, 1)), Err(FaultQueueError::QueueFull));
    assert_eq!(queue.len(), 3);
    let order: Vec<u32> = (0..3).map(|_| queue.pop().unwrap().stream_id().as_u32()).collect();
    assert_eq!(order, vec![5, 6, 7]);
    assert!(queue.pop().is_none());
}

#[test]
fn law_processing_log_bounded_newest_last() {
    let mut processor = FaultProcessor::new(FaultMode::Terminate);
    for i in 0..(DEFAULT_MAX_EVENTS as u64 + 5) {
        let _ = processor.process_fault_at(fault_at(1, FaultType::PermissionFault, i + 1), 0);
    }
    let events = processor.get_events();
    assert_eq!(events.len(), DEFAULT_MAX_EVENTS);
    assert_eq!(events[0].timestamp(), 6);
    assert_eq!(events[events.len() - 1].timestamp(), DEFAULT_MAX_EVENTS as u64 + 5);
    assert_eq!(processor.get_total_fault_count(), DEFAULT_MAX_EVENTS as u64 + 5);
}

#[test]
fn test_processing_stamps_unstamped_faults() {
    let mut processor = FaultProcessor::new(FaultMode::Terminate);
    let result = processor.process_fault_at(fault_at(2, FaultType::TranslationFault, 0), 77);
    let stamped = processor.get_events()[0];
    assert_eq!(stamped.timestamp(), 77);
    assert_eq!(result, Err(FaultProcessingError::Terminated(stamped)));
}

#[test]
fn test_stall_queue_full_error() {
    let mut processor = FaultProcessor::with_config(FaultMode::Stall, 1);
    assert_eq!(processor.process_fault_at(fault_at(1, FaultType::TranslationFault, 5), 0), Ok(()));
    assert_eq!(
        processor.process_fault_at(fault_at(2, FaultType::TranslationFault, 6), 0),
        Err(FaultProcessingError::QueueFull)
    );
    assert_eq!(processor.get_next_stalled_fault().unwrap().stream_id().as_u32(), 1);
    assert!(processor.get_next_stalled_fault().is_none());
}

#[test]
fn test_resume_only_in_stall_mode() {
    let stalling = FaultProcessor::new(FaultMode::Stall);
    let terminating = FaultProcessor::new(FaultMode::Terminate);
    let f = fault_at(1, FaultType::TranslationFault, 1);
    assert_eq!(stalling.resume_stalled_fault(f, true), Ok(()));
    assert_eq!(terminating.resume_stalled_fault(f, true), Err(FaultProcessingError::InvalidResume));
}

#[test]
fn test_events_in_window_uses_duration_micros() {
    let mut processor = FaultProcessor::new(FaultMode::Terminate);
    for t in [100u64, 1_500, 2_000, 3_000] {
        let _ = processor.process_fault_at(fault_at(1, FaultType::TranslationFault, t), 0);
    }
    let recent = processor.get_events_in_window(3_000, Duration::from_millis(1));
    assert_eq!(recent.len(), 2);
    assert_eq!(recent[0].timestamp(), 2_000);
}

#[test]
fn law_serialized_events_round_trip() {
    let processor = FaultProcessor::new(FaultMode::Terminate);
    let events = vec![
        fault_at(3, FaultType::AccessFlagFault, 9),
        fault_at(0xFFFF_FFFF, FaultType::UnsupportedAtomicUpdate, u64::MAX),
    ];
    let bytes = processor.serialize_events(&events);
    assert_eq!(bytes.len(), 2 * RECORD_BYTES);
    assert_eq!(&bytes[0..4], &[3, 0, 0, 0]);
    assert_eq!(processor.deserialize_events(&bytes), Ok(events));
    assert_eq!(processor.deserialize_events(&[]), Ok(vec![]));
}

#[test]
fn test_deserialize_rejects_malformed_bytes() {
    let processor = FaultProcessor::new(FaultMode::Terminate);
    let mut bytes = processor.serialize_events(&[fault_at(1, FaultType::TranslationFault, 2)]);
    let err = Err(FaultProcessingError::SerializationError(MALFORMED_EVENTS.to_string()));
    assert_eq!(processor.deserialize_events(&bytes[..RECORD_BYTES - 1]), err);
    bytes[16] = 200; // no fault type has this number
    assert_eq!(processor.deserialize_events(&bytes), err);
}

#[test]
fn test_process_fault_stamps_with_clock() {
    let mut processor = FaultProcessor::new(FaultMode::Stall);
    assert_eq!(processor.process_fault(fault_at(1, FaultType::TranslationFault, 0)), Ok(()));
    assert!(processor.get_events()[0].timestamp() > 0);
    assert!(processor.get_current_timestamp() > 0);
}

#[test]
fn law_retry_gives_up_at_limit() {
    let mut recovery = FaultRecovery::new();
    let fault = fault_at(4, FaultType::TranslationFault, 1);
    let strategy = RecoveryStrategy::Retry { max_attempts: 4 };
    let results: Vec<RecoveryResult> = (0..5).map(|_| recovery.attempt_recovery_at(&fault, strategy, 10)).collect();
    assert_eq!(
        results,
        vec![
            RecoveryResult::Retry,
            RecoveryResult::Retry,
            RecoveryResult::Retry,
            RecoveryResult::Unrecoverable,
            RecoveryResult::Unrecoverable
        ]
    );
    assert_eq!(recovery.save_state(&fault).retry_count(), 5);
    assert_eq!(recovery.save_state(&fault).first_fault_time(), 10);
}

#[test]
fn law_restore_then_save_round_trip() {
    let mut recovery = FaultRecovery::new();
    let fault = fault_at(4, FaultType::TranslationFault, 1);
    recovery.attempt_recovery_at(&fault, RecoveryStrategy::Remap, 3);
    let saved = recovery.save_state(&fault);
    recovery.clear_all();
    assert_eq!(recovery.save_state(&fault).retry_count(), 0);
    recovery.restore_state(&fault, saved).unwrap();
    assert_eq!(recovery.save_state(&fault), saved);
    assert_eq!(recovery.save_state(&fault).last_strategy(), Some(RecoveryStrategy::Remap));
}

#[test]
fn test_terminate_strategy_unrecoverable() {
    let mut recovery = FaultRecovery::new();
    let fault = fault_at(4, FaultType::PermissionFault, 1);
    assert_eq!(recovery.attempt_recovery(&fault, RecoveryStrategy::Terminate), RecoveryResult::Unrecoverable);
    assert_eq!(recovery.save_state(&fault).retry_count(), 0);
}
