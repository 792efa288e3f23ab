use smmu::fault::processing::FaultProcessor;
use smmu::types::{AccessType, FaultMode, FaultRecord, FaultType, StreamID, IOVA, PASID};

fn processing_fault(stream_id: u32, fault_type: FaultType) -> FaultRecord {
    FaultRecord::builder()
        .stream_id(StreamID::new(stream_id).unwrap())
        .pasid(PASID::new(1).unwrap())
        .address(IOVA::new(0x1000_0000).unwrap())
        .fault_type(fault_type)
        .access_type(AccessType::Read)
        .build()
}

#[test]
fn test_terminate_mode_processing() {
    let mut processor = FaultProcessor::new(FaultMode::Terminate);
    let fault = processing_fault(0x100, FaultType::TranslationFault);

    let result = processor.process_fault(fault);
    assert!(result.is_err());
    assert_eq!(processor.get_total_fault_count(), 1);
}

#[test]
fn test_stall_mode_processing() {
    let mut processor = FaultProcessor::new(FaultMode::Stall);
    let fault = processing_fault(0x100, FaultType::TranslationFault);

    let result = processor.process_fault(fault);
    assert!(result.is_ok());
    assert_eq!(processor.get_queued_fault_count(), 1);
}

#[test]
fn test_statistics_tracking() {
    let mut processor = FaultProcessor::new(FaultMode::Terminate);

    let _ = processor.process_fault(processing_fault(0x100, FaultType::TranslationFault));
    let _ = processor.process_fault(processing_fault(0x200, FaultType::TranslationFault));
    let _ = processor.process_fault(processing_fault(0x300, FaultType::PermissionFault));

    assert_eq!(processor.get_total_fault_count(), 3);
    assert_eq!(processor.get_translation_fault_count(), 2);
    assert_eq!(processor.get_permission_fault_count(), 1);
}

#[test]
fn test_event_filtering() {
    let mut processor = FaultProcessor::new(FaultMode::Terminate);

    let _ = processor.process_fault(processing_fault(0x100, FaultType::TranslationFault));
    let _ = processor.process_fault(processing_fault(0x200, FaultType::PermissionFault));

    let stream_100 = processor.get_events_by_stream(StreamID::new(0x100).unwrap());
    assert_eq!(stream_100.len(), 1);

    let trans_faults = processor.get_events_by_type(FaultType::TranslationFault);
    assert_eq!(trans_faults.len(), 1);
}
