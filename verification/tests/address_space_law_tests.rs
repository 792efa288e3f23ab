use smmu::address_space::{AddressRange, AddressSpace, AddressSpaceError, MAX_PHYSICAL_ADDRESS, MAX_VIRTUAL_ADDRESS};
use smmu::types::{AccessType, PagePermissions, SecurityState, TranslationError, IOVA, PA};

fn iova(v: u64) -> IOVA {
    IOVA::new(v).unwrap()
}

fn pa(v: u64) -> PA {
    PA::new(v).unwrap()
}

#[test]
fn law_translate_after_map_keeps_offset() {
    let mut space = AddressSpace::new();
    space.map_page(iova(0x7000), pa(0x9_2345), PagePermissions::read_write(), SecurityState::Secure).unwrap();
    // The physical page is rounded down; the offset comes from the probed address.
    let t = space.translate_page(iova(0x7ABC), AccessType::Write, SecurityState::Secure).unwrap();
    assert_eq!(t.physical_address().as_u64(), 0x9_2ABC);
    assert_eq!(t.permissions(), PagePermissions::read_write());
    assert_eq!(t.security_state(), SecurityState::Secure);
}

#[test]
fn law_translate_refused_by_permissions_and_state() {
    let mut space = AddressSpace::new();
    space.map_page(iova(0x1000), pa(0x2000), PagePermissions::read_only(), SecurityState::NonSecure).unwrap();
    assert_eq!(
        space.translate_page(iova(0x1000), AccessType::Execute, SecurityState::NonSecure),
        Err(TranslationError::PermissionViolation { access: AccessType::Execute })
    );
    assert_eq!(
        space.translate_page(iova(0x1000), AccessType::Read, SecurityState::Realm),
        Err(TranslationError::SecurityViolation)
    );
}

#[test]
fn law_translate_after_unmap_is_not_mapped() {
    let mut space = AddressSpace::new();
    space.map_page(iova(0x1000), pa(0x2000), PagePermissions::all(), SecurityState::NonSecure).unwrap();
    space.map_page(iova(0x3000), pa(0x4000), PagePermissions::all(), SecurityState::NonSecure).unwrap();
    space.unmap_page(iova(0x1FFF)).unwrap();
    assert_eq!(
        space.translate_page(iova(0x1000), AccessType::Read, SecurityState::NonSecure),
        Err(TranslationError::PageNotMapped)
    );
    // The other page is unaffected.
    assert_eq!(
        space.translate_page(iova(0x3010), AccessType::Read, SecurityState::NonSecure).unwrap().physical_address(),
        pa(0x4010)
    );
}

#[test]
fn law_cleared_space_translates_nothing() {
    let mut space = AddressSpace::new();
    space.map_page(iova(0x1000), pa(0x2000), PagePermissions::all(), SecurityState::NonSecure).unwrap();
    space.clear().unwrap();
    assert_eq!(space.get_page_count().unwrap(), 0);
    assert_eq!(
        space.translate_page(iova(0x1000), AccessType::Read, SecurityState::NonSecure),
        Err(TranslationError::PageNotMapped)
    );
}

#[test]
fn law_map_range_consecutive_pages() {
    let mut space = AddressSpace::new();
    space.map_range(iova(0x10_0000), iova(0x10_3FFF), pa(0x80_0000), PagePermissions::read_only()).unwrap();
    assert_eq!(space.get_page_count().unwrap(), 4);
    let t = space.translate_page(iova(0x10_2123), AccessType::Read, SecurityState::NonSecure).unwrap();
    assert_eq!(t.physical_address().as_u64(), 0x80_2123);
}

#[test]
fn test_map_page_errors() {
    let mut space = AddressSpace::new();
    assert_eq!(
        space.map_page(iova(MAX_VIRTUAL_ADDRESS + 1), pa(0), PagePermissions::all(), SecurityState::NonSecure),
        Err(AddressSpaceError::InvalidAddress { address: MAX_VIRTUAL_ADDRESS + 1 })
    );
    assert_eq!(
        space.map_page(iova(0), pa(MAX_PHYSICAL_ADDRESS + 1), PagePermissions::all(), SecurityState::NonSecure),
        Err(AddressSpaceError::InvalidAddress { address: MAX_PHYSICAL_ADDRESS + 1 })
    );
    assert_eq!(
        space.map_page(iova(0), pa(0), PagePermissions::none(), SecurityState::NonSecure),
        Err(AddressSpaceError::InvalidPermissions)
    );
    assert_eq!(space.unmap_page(iova(0x5000)), Err(AddressSpaceError::PageNotMapped));
    assert_eq!(space.get_page_count().unwrap(), 0);
}

#[test]
fn test_map_range_reversed_is_invalid() {
    let mut space = AddressSpace::new();
    assert_eq!(
        space.map_range(iova(0x5000), iova(0x1000), pa(0), PagePermissions::all()),
        Err(AddressSpaceError::InvalidAddress { address: 0x1000 })
    );
}

#[test]
fn test_mapped_ranges_are_sorted_runs() {
    let mut space = AddressSpace::new();
    for page in [9u64, 3, 4, 5, 1, 10] {
        space.map_page(iova(page * 0x1000), pa(page * 0x1000), PagePermissions::read_only(), SecurityState::NonSecure)
            .unwrap();
    }
    let ranges = space.get_mapped_ranges();
    assert_eq!(
        ranges,
        vec![
            AddressRange::new(iova(0x1000), iova(0x1FFF)),
            AddressRange::new(iova(0x3000), iova(0x5FFF)),
            AddressRange::new(iova(0x9000), iova(0xAFFF)),
        ]
    );
}

#[test]
fn test_map_pages_batched_stores_every_pair() {
    let mut space = AddressSpace::new();
    let pairs: Vec<(IOVA, PA)> = (0..20u64).map(|i| (iova(i * 0x1000), pa(0x40_0000 + i * 0x1000))).collect();
    space.map_pages_batched(&pairs, PagePermissions::read_write()).unwrap();
    assert_eq!(space.get_page_count().unwrap(), 20);
    let t = space.translate_page(iova(0x13_000), AccessType::Read, SecurityState::NonSecure).unwrap();
    assert_eq!(t.physical_address().as_u64(), 0x41_3000);
}

#[test]
fn test_invalidate_range_atomic_counts_mapped_pages() {
    let mut space = AddressSpace::new();
    space.map_page(iova(0x1000), pa(0x1000), PagePermissions::all(), SecurityState::NonSecure).unwrap();
    space.map_page(iova(0x3000), pa(0x3000), PagePermissions::all(), SecurityState::NonSecure).unwrap();
    assert_eq!(space.invalidate_range_atomic(iova(0), iova(0x4FFF)), 2);
    assert!(space.is_invalidated(iova(0x1000)));
    assert!(!space.is_invalidated(iova(0x2000)));
    assert_eq!(space.invalidation_generation(), 2);
}

#[test]
fn law_page_count_follows_map_and_unmap() {
    let mut space = AddressSpace::new();
    space.map_page(iova(0x1000), pa(0x2000), PagePermissions::all(), SecurityState::NonSecure).unwrap();
    assert_eq!(space.get_page_count().unwrap(), 1);
    // Remapping the same page replaces it.
    space.map_page(iova(0x1800), pa(0x5000), PagePermissions::read_only(), SecurityState::NonSecure).unwrap();
    assert_eq!(space.get_page_count().unwrap(), 1);
    space.map_page(iova(0x3000), pa(0x2000), PagePermissions::all(), SecurityState::NonSecure).unwrap();
    assert_eq!(space.get_page_count().unwrap(), 2);
    space.unmap_page(iova(0x1000)).unwrap();
    assert_eq!(space.get_page_count().unwrap(), 1);
}

#[test]
fn test_set_page_permissions_in_place() {
    let mut space = AddressSpace::new();
    space.map_page(iova(0x4000), pa(0x8000), PagePermissions::read_only(), SecurityState::Secure).unwrap();
    assert!(space.set_page_permissions(iova(0x4FFF), PagePermissions::read_write()));
    assert_eq!(space.get_page_permissions(iova(0x4000)).unwrap(), PagePermissions::read_write());
    let t = space.translate_page(iova(0x4010), AccessType::Write, SecurityState::Secure).unwrap();
    assert_eq!(t.physical_address().as_u64(), 0x8010);
    assert!(!space.set_page_permissions(iova(0x9000), PagePermissions::all()));
    assert_eq!(space.get_page_count().unwrap(), 1);
}

#[test]
fn test_invalidate_page_is_a_no_op() {
    let mut space = AddressSpace::new();
    space.map_page(iova(0x1000), pa(0x2000), PagePermissions::all(), SecurityState::NonSecure).unwrap();
    space.invalidate_page(iova(0x1000));
    assert!(!space.is_invalidated(iova(0x1000)));
    assert_eq!(space.invalidation_generation(), 0);
    assert_eq!(space.get_page_count().unwrap(), 1);
}

#[test]
fn law_permission_update_keeps_frame() {
    let mut space = AddressSpace::new();
    space.map_page(iova(0x7000), pa(0x3000), PagePermissions::all(), SecurityState::NonSecure).unwrap();
    assert!(space.set_page_permissions(iova(0x7000), PagePermissions::read_only()));
    assert_eq!(
        space.translate_page(iova(0x7004), AccessType::Write, SecurityState::NonSecure),
        Err(TranslationError::PermissionViolation { access: AccessType::Write })
    );
    let t = space.translate_page(iova(0x7004), AccessType::Read, SecurityState::NonSecure).unwrap();
    assert_eq!(t.physical_address().as_u64(), 0x3004);
    assert_eq!(t.permissions(), PagePermissions::read_only());
}
