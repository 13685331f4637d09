use kernel::memory::{
    kernel_virt_to_phys_region, phys_addr_space_end_exclusive_addr, virt_boot_core_stack_region, virt_code_region, virt_data_region,
    virt_heap_region, virt_mmio_remap_region, Address, AddressSpace, KernelGranule, MMUEnableError,
    MemoryRegion, PageAddress, Physical, TranslationGranule, Virtual, KERNEL_GRANULE_SIZE,
};

#[test]
fn address_type_method_sanity() {
    let addr = Address::<Virtual>::new(KERNEL_GRANULE_SIZE + 100);
    assert_eq!(addr.align_down_page().as_usize(), KERNEL_GRANULE_SIZE);
    assert_eq!(addr.align_up_page().as_usize(), KERNEL_GRANULE_SIZE * 2);
    assert!(!addr.is_page_aligned());
    assert_eq!(addr.offset_into_page(), 100);
}

#[test]
fn aligned_address_stays_put() {
    let addr = Address::<Virtual>::new(3 * KERNEL_GRANULE_SIZE);
    assert!(addr.is_page_aligned());
    assert_eq!(addr.align_up_page().as_usize(), 3 * KERNEL_GRANULE_SIZE);
    assert_eq!(addr.align_down_page().as_usize(), 3 * KERNEL_GRANULE_SIZE);
    assert_eq!(addr.offset_into_page(), 0);
    let zero = Address::<Virtual>::new(0);
    assert_eq!(zero.align_up_page().as_usize(), 0);
}

#[test]
fn address_add_and_sub() {
    let a = Address::<Virtual>::new(0x1000);
    assert_eq!(a.add(0x10).as_usize(), 0x1010);
    assert_eq!(a.sub(0x10).as_usize(), 0xff0);
    assert_eq!(a.sub_addr(Address::new(0x800)).as_usize(), 0x800);
}

#[test]
fn page_offsets() {
    let p: PageAddress<Virtual> = PageAddress::new(0x20_0000);
    assert_eq!(p.checked_offset(2).unwrap().into_inner().as_usize(), 0x22_0000);
    assert_eq!(p.checked_offset(-2).unwrap().into_inner().as_usize(), 0x1e_0000);
    assert_eq!(p.checked_offset(0).unwrap().into_inner().as_usize(), 0x20_0000);
    assert!(p.checked_offset(-33).is_none());
    assert!(p.checked_offset(-32).is_some());
    assert!(p.checked_offset(isize::MAX).is_none());
    let top: PageAddress<Virtual> = PageAddress::new(usize::MAX - 0xffff);
    assert!(top.checked_offset(1).is_none());
}

#[test]
fn segment_regions() {
    let code = virt_code_region(0x8_0000, 0x3_0000);
    assert_eq!(code.start_addr().as_usize(), 0x8_0000);
    assert_eq!(code.end_exclusive_page_addr().into_inner().as_usize(), 0xb_0000);
    assert_eq!(code.num_pages(), 3);
    let data = virt_data_region(0x10_0000, 0x1_0000);
    assert_eq!(data.num_pages(), 1);
    let heap = virt_heap_region(0x20_0000, 0x100_0000);
    assert_eq!(heap.num_pages(), 256);
    let remap = virt_mmio_remap_region(0x1_0000_0000, 0x20_0000);
    assert_eq!(remap.start_page_addr().into_inner().as_usize(), 0x1_0000_0000);
    assert_eq!(remap.num_pages(), 32);
    let stack = virt_boot_core_stack_region(0x1_0000, 0x7_0000);
    assert_eq!(stack.num_pages(), 7);
}

#[test]
fn stack_and_code_membership() {
    let stack = virt_boot_core_stack_region(0x1_0000, 0x7_0000);
    let code = virt_code_region(0x8_0000, 0x3_0000);
    assert!(Address::<Virtual>::new(0x1_0000).is_valid_stack_addr(&stack));
    assert!(Address::<Virtual>::new(0x7_ffff).is_valid_stack_addr(&stack));
    assert!(!Address::<Virtual>::new(0x8_0000).is_valid_stack_addr(&stack));
    assert!(Address::<Virtual>::new(0x8_0000).is_valid_code_addr(&code));
    assert!(!Address::<Virtual>::new(0xb_0000).is_valid_code_addr(&code));
    let region = MemoryRegion::new(PageAddress::<Virtual>::new(0), PageAddress::new(0x1_0000));
    assert!(region.contains(Address::new(0xffff)));
    assert!(!region.contains(Address::new(0x1_0000)));
}

#[test]
fn physical_space_end() {
    assert_eq!(phys_addr_space_end_exclusive_addr().into_inner().as_usize(), 0xFF85_0000);
}

#[test]
fn granule_and_address_space_sizes() {
    assert_eq!(KernelGranule::size_checked(), 65536);
    assert_eq!(TranslationGranule::<4096>::size_checked(), 4096);
    assert_eq!(AddressSpace::<{ 1024 * 1024 * 1024 }>::size_checked(), 1 << 30);
}

#[test]
fn mmu_error_messages() {
    assert_eq!(MMUEnableError::AlreadyEnabled.message(), "MMU is already enabled");
    assert_eq!(MMUEnableError::Other("Translation granule not supported in HW").message(), "Translation granule not supported in HW");
}

#[test]
fn virtual_region_translates_page_for_page() {
    let code = virt_code_region(0xFFFF_FFFF_C000_0000, 0x3_0000);
    let phys = kernel_virt_to_phys_region(&code, PageAddress::<Physical>::new(0x8_0000));
    assert_eq!(phys.start_addr().as_usize(), 0x8_0000);
    assert_eq!(phys.end_exclusive_page_addr().into_inner().as_usize(), 0xb_0000);
    assert_eq!(phys.num_pages(), 3);
}
