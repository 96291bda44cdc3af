use earlyboot::mapper::{AddressMapper, IdentityMapper, MapError, PhysicalAddress, VirtualAddress, PAGE_SIZE};

#[test]
fn identity_map_returns_the_same_number() {
    let mut mapper = IdentityMapper;
    assert_eq!(mapper.map(PhysicalAddress(0xe000_0000), 1_920_000), Ok(VirtualAddress(0xe000_0000)));
    assert_eq!(mapper.map(PhysicalAddress(0), 1), Ok(VirtualAddress(0)));
    assert_eq!(mapper.map(PhysicalAddress(usize::MAX), usize::MAX), Ok(VirtualAddress(usize::MAX)));
}

#[test]
fn identity_map_ignores_the_size() {
    let mut mapper = IdentityMapper;
    let small = mapper.map(PhysicalAddress(0x1234), 1);
    let large = mapper.map(PhysicalAddress(0x1234), 0x10_0000);
    assert_eq!(small, large);
    assert_eq!(small, Ok(VirtualAddress(0x1234)));
}

#[test]
fn identity_round_trip() {
    let mut mapper = IdentityMapper;
    for physical in [1usize, 4095, 4096, 4097, 0xb8000, 0xfee0_0000] {
        for size in [1usize, 4096, 1_920_000] {
            let mapped = mapper.map(PhysicalAddress(physical), size);
            assert_eq!(mapped, Ok(VirtualAddress(physical)));
            assert_eq!(mapper.unmap(VirtualAddress(physical)), Ok(()));
        }
    }
}

#[test]
fn identity_unmap_of_an_address_never_mapped_succeeds() {
    let mut mapper = IdentityMapper;
    assert_eq!(mapper.unmap(VirtualAddress(0xdead_b000)), Ok(()));
    assert_eq!(mapper.unmap(VirtualAddress(0xdead_b000)), Ok(()));
    assert_eq!(mapper.unmap(VirtualAddress(0)), Ok(()));
}

#[test]
fn identity_aligned_entry_points_agree_with_the_capability() {
    let mut mapper = IdentityMapper;
    assert_eq!(mapper.map_aligned(PhysicalAddress(0x7000), 4096), Ok(VirtualAddress(0x7000)));
    assert_eq!(mapper.unmap_aligned(VirtualAddress(0x7000)), Ok(()));
}

#[test]
fn identity_page_size_is_4096() {
    let mut mapper = IdentityMapper;
    assert_eq!(mapper.page_size(), 4096);
    assert_eq!(PAGE_SIZE, 4096);
    let _ = mapper.map(PhysicalAddress(0x1000), 8192);
    let _ = mapper.unmap(VirtualAddress(0x1000));
    assert_eq!(mapper.page_size(), 4096);
}

#[test]
fn map_errors_are_distinct() {
    assert_ne!(MapError::OutOfMappingSpace, MapError::InvalidAlignment);
}
