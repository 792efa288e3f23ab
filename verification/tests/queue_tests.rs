use smmu::fault::queue::{FaultQueue, FaultQueueError};
use smmu::types::{AccessType, FaultRecord, FaultType, StreamID, IOVA, PASID};

fn queue_fault(stream_id: u32) -> FaultRecord {
    FaultRecord::builder()
        .stream_id(StreamID::new(stream_id).unwrap())
        .pasid(PASID::new(1).unwrap())
        .address(IOVA::new(0x1000_0000).unwrap())
        .fault_type(FaultType::TranslationFault)
        .access_type(AccessType::Read)
        .build()
}

#[test]
fn test_new_queue() {
    let queue = FaultQueue::new(100);
    assert_eq!(queue.capacity(), 100);
    assert_eq!(queue.len(), 0);
    assert!(queue.is_empty());
}

#[test]
fn test_push_pop() {
    let mut queue = FaultQueue::new(10);
    let fault = queue_fault(0x100);

    assert!(queue.push(fault.clone()).is_ok());
    assert_eq!(queue.len(), 1);

    let popped = queue.pop();
    assert!(popped.is_some());
    assert_eq!(popped.unwrap().stream_id(), fault.stream_id());
    assert!(queue.is_empty());
}

#[test]
fn test_capacity_limit() {
    let mut queue = FaultQueue::new(2);

    assert!(queue.push(queue_fault(0x100)).is_ok());
    assert!(queue.push(queue_fault(0x200)).is_ok());
    assert!(queue.is_full());

    // Should fail when full
    assert_eq!(
        queue.push(queue_fault(0x300)),
        Err(FaultQueueError::QueueFull)
    );
}

#[test]
fn test_fifo_order() {
    let mut queue = FaultQueue::new(10);

    queue.push(queue_fault(0x100)).unwrap();
    queue.push(queue_fault(0x200)).unwrap();
    queue.push(queue_fault(0x300)).unwrap();

    assert_eq!(queue.pop().unwrap().stream_id().as_u32(), 0x100);
    assert_eq!(queue.pop().unwrap().stream_id().as_u32(), 0x200);
    assert_eq!(queue.pop().unwrap().stream_id().as_u32(), 0x300);
}
