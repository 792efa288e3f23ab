use smmu::fault::detection::AddressSize;
use smmu::fault::validator::{AddressRangeValidator, PermissionValidator, ValidationContext};
use smmu::types::{AccessType, FaultType, PagePermissions, SecurityState, StreamID, IOVA, PASID};

fn v_stream_id(value: u32) -> StreamID {
    StreamID::new(value).unwrap()
}

fn v_pasid(value: u32) -> PASID {
    PASID::new(value).unwrap()
}

fn v_iova(value: u64) -> IOVA {
    IOVA::new(value).unwrap()
}

#[test]
fn test_permission_validator_read() {
    let perms = PagePermissions::new(true, false, false);
    assert!(PermissionValidator::can_read(perms));
    assert!(!PermissionValidator::can_write(perms));
    assert!(!PermissionValidator::can_execute(perms));
}

#[test]
fn test_permission_validator_write() {
    let perms = PagePermissions::new(false, true, false);
    assert!(!PermissionValidator::can_read(perms));
    assert!(PermissionValidator::can_write(perms));
    assert!(!PermissionValidator::can_execute(perms));
}

#[test]
fn test_permission_validator_execute() {
    let perms = PagePermissions::new(false, false, true);
    assert!(!PermissionValidator::can_read(perms));
    assert!(!PermissionValidator::can_write(perms));
    assert!(PermissionValidator::can_execute(perms));
}

#[test]
fn test_permission_allows_access() {
    let perms = PagePermissions::new(true, true, false);
    assert!(PermissionValidator::allows_access(perms, AccessType::Read));
    assert!(PermissionValidator::allows_access(perms, AccessType::Write));
    assert!(!PermissionValidator::allows_access(perms, AccessType::Execute));
}

#[test]
fn test_permission_violation_description() {
    let perms = PagePermissions::new(true, false, false);
    let desc = PermissionValidator::violation_description(perms, AccessType::Write);
    assert!(desc.contains("write"));
    assert!(desc.contains("R-"));
}

#[test]
fn test_address_range_validator_32bit() {
    let validator = AddressRangeValidator::new(AddressSize::Bits32);
    assert!(validator.is_valid_address(0xFFFF_FFFF));
    assert!(!validator.is_valid_address(0x1_0000_0000));
}

#[test]
fn test_address_range_validator_48bit() {
    let validator = AddressRangeValidator::new(AddressSize::Bits48);
    assert!(validator.is_valid_address(0x0000_FFFF_FFFF_FFFF));
    assert!(!validator.is_valid_address(0x0001_0000_0000_0000));
}

#[test]
fn test_address_range_validation() {
    let mut validator = AddressRangeValidator::new(AddressSize::Bits32);

    // Valid address
    assert!(validator
        .validate_range(
            v_stream_id(1),
            v_pasid(0),
            v_iova(0x1000),
            AccessType::Read,
            SecurityState::NonSecure,
        )
        .is_ok());

    // Invalid address
    let result = validator.validate_range(
        v_stream_id(1),
        v_pasid(0),
        v_iova(0x1_0000_0000),
        AccessType::Read,
        SecurityState::NonSecure,
    );

    assert!(result.is_err());
    assert_eq!(result.unwrap_err().fault_type(), FaultType::AddressSizeFault);
}

#[test]
fn test_page_alignment_check() {
    assert!(AddressRangeValidator::is_page_aligned(v_iova(0x1000)));
    assert!(AddressRangeValidator::is_page_aligned(v_iova(0x2000)));
    assert!(!AddressRangeValidator::is_page_aligned(v_iova(0x1001)));
    assert!(!AddressRangeValidator::is_page_aligned(v_iova(0x1FFF)));
}

#[test]
fn test_page_alignment_validation() {
    let mut validator = AddressRangeValidator::default();

    // Aligned
    assert!(validator
        .validate_page_alignment(
            v_stream_id(1),
            v_pasid(0),
            v_iova(0x1000),
            AccessType::Read,
            SecurityState::NonSecure,
        )
        .is_ok());

    // Not aligned
    let result = validator.validate_page_alignment(
        v_stream_id(1),
        v_pasid(0),
        v_iova(0x1001),
        AccessType::Read,
        SecurityState::NonSecure,
    );

    assert!(result.is_err());
    assert_eq!(result.unwrap_err().fault_type(), FaultType::AlignmentFault);
}

#[test]
fn test_validation_context() {
    let ctx = ValidationContext::new(
        v_stream_id(42),
        v_pasid(7),
        v_iova(0x1000),
        AccessType::Write,
        SecurityState::Secure,
    );

    assert_eq!(ctx.stream_id, v_stream_id(42));
    assert_eq!(ctx.pasid, v_pasid(7));
    assert_eq!(ctx.address, v_iova(0x1000));
    assert_eq!(ctx.access_type, AccessType::Write);
    assert_eq!(ctx.security_state, SecurityState::Secure);
}
