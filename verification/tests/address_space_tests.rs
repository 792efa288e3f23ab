use smmu::address_space::AddressSpace;
use smmu::types::{AccessType, PagePermissions, SecurityState, IOVA, PA};

#[test]
fn test_new_address_space() {
    let addr_space = AddressSpace::new();
    assert_eq!(addr_space.get_page_count().unwrap(), 0);
}

#[test]
fn test_map_single_page() {
    let mut addr_space = AddressSpace::new();
    let iova = IOVA::new(0x1000).unwrap();
    let pa = PA::new(0x2000).unwrap();

    addr_space
        .map_page(iova, pa, PagePermissions::read_write(), SecurityState::NonSecure)
        .unwrap();

    assert!(addr_space.is_page_mapped(iova).unwrap());
    assert_eq!(addr_space.get_page_count().unwrap(), 1);
}

#[test]
fn test_translate_page() {
    let mut addr_space = AddressSpace::new();
    let iova = IOVA::new(0x1000).unwrap();
    let pa = PA::new(0x2000).unwrap();

    addr_space
        .map_page(iova, pa, PagePermissions::read_write(), SecurityState::NonSecure)
        .unwrap();

    let result = addr_space
        .translate_page(iova, AccessType::Read, SecurityState::NonSecure)
        .unwrap();

    assert_eq!(result.physical_address().as_u64(), 0x2000);
}

#[test]
fn test_permission_violation() {
    let mut addr_space = AddressSpace::new();
    let iova = IOVA::new(0x1000).unwrap();
    let pa = PA::new(0x2000).unwrap();

    addr_space
        .map_page(iova, pa, PagePermissions::read_only(), SecurityState::NonSecure)
        .unwrap();

    let result = addr_space.translate_page(iova, AccessType::Write, SecurityState::NonSecure);
    assert!(result.is_err());
}
