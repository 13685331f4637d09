//! Typed addresses, page arithmetic and the kernel's memory regions.
use core::marker::PhantomData;
use vstd::prelude::*;

verus! {

/// Size of a page of the kernel's translation granule (64 KiB).
pub const KERNEL_GRANULE_SIZE: usize = 65536;

/// Mask of the offset into a kernel page.
pub const KERNEL_GRANULE_MASK: usize = 0xffff;

/// log2 of the kernel page size.
pub const KERNEL_GRANULE_SHIFT: usize = 16;

/// Exclusive end of the physical address space of the board.
pub const PHYS_ADDR_SPACE_END: usize = 0xFF85_0000;

/// Metadata trait for marking the type of an address.
pub trait AddressType: Copy + Clone {}

/// Zero-sized type to mark a physical address.
#[derive(Copy, Clone)]
pub struct Physical;

/// Zero-sized type to mark a virtual address.
#[derive(Copy, Clone)]
pub struct Virtual;

impl AddressType for Physical {}

impl AddressType for Virtual {}

/// An address of a kind of address space.
#[derive(Copy)]
pub struct Address<ATYPE: AddressType> {
    value: usize,
    _address_type: PhantomData<ATYPE>,
}

impl<ATYPE: AddressType> Clone for Address<ATYPE> {
    fn clone(&self) -> (r: Self)
        ensures
            r == *self,
    {
        *self
    }
}

impl<ATYPE: AddressType> View for Address<ATYPE> {
    type V = usize;

    closed spec fn view(&self) -> usize {
        self.value
    }
}

/// `v` rounded down to a page boundary.
pub open spec fn page_floor(v: int) -> int {
    v - v % KERNEL_GRANULE_SIZE as int
}

/// `v` rounded up to a page boundary.
pub open spec fn page_ceil(v: int) -> int {
    if v % KERNEL_GRANULE_SIZE as int == 0 {
        v
    } else {
        page_floor(v) + KERNEL_GRANULE_SIZE
    }
}

proof fn lemma_mask_is_mod(v: usize)
    ensures
        v & 0xffffusize == v % 65536,
        v & !0xffffusize == v - v % 65536,
{
    assert(v & 0xffffusize == v % 65536) by (bit_vector);
    assert(v & !0xffffusize == v - (v & 0xffffusize)) by (bit_vector);
}

impl<ATYPE: AddressType> Address<ATYPE> {
    /// Create an instance.
    pub fn new(value: usize) -> (r: Self)
        ensures
            r@ == value,
    {
        Address { value, _address_type: PhantomData }
    }

    /// Convert to usize.
    pub fn as_usize(self) -> (r: usize)
        ensures
            r == self@,
    {
        self.value
    }

    /// Align down to page size.
    pub fn align_down_page(self) -> (r: Self)
        ensures
            r@ == page_floor(self@ as int),
    {
        proof {
            lemma_mask_is_mod(self.value);
        }
        Self::new(self.value & !KERNEL_GRANULE_MASK)
    }

    /// Align up to page size.
    pub fn align_up_page(self) -> (r: Self)
        requires
            self@ + KERNEL_GRANULE_MASK <= usize::MAX,
        ensures
            r@ == page_ceil(self@ as int),
    {
        let v = self.value + KERNEL_GRANULE_MASK;
        proof {
            lemma_mask_is_mod(v);
        }
        Self::new(v & !KERNEL_GRANULE_MASK)
    }

    /// Checks if the address is page aligned.
    pub fn is_page_aligned(&self) -> (r: bool)
        ensures
            r == (self@ % KERNEL_GRANULE_SIZE == 0),
    {
        proof {
            lemma_mask_is_mod(self.value);
        }
        self.value & KERNEL_GRANULE_MASK == 0
    }

    /// Return the address' offset into the corresponding page.
    pub fn offset_into_page(&self) -> (r: usize)
        ensures
            r == self@ % KERNEL_GRANULE_SIZE,
    {
        proof {
            lemma_mask_is_mod(self.value);
        }
        self.value & KERNEL_GRANULE_MASK
    }

    /// The address `rhs` bytes further.
    pub fn add(self, rhs: usize) -> (r: Self)
        requires
            self@ + rhs <= usize::MAX,
        ensures
            r@ == self@ + rhs,
    {
        Self::new(self.value + rhs)
    }

    /// The address `rhs` bytes before.
    pub fn sub(self, rhs: usize) -> (r: Self)
        requires
            rhs <= self@,
        ensures
            r@ == self@ - rhs,
    {
        Self::new(self.value - rhs)
    }

    /// The distance from `rhs` up to this address, as an address.
    pub fn sub_addr(self, rhs: Address<ATYPE>) -> (r: Self)
        requires
            rhs@ <= self@,
        ensures
            r@ == self@ - rhs@,
    {
        Self::new(self.value - rhs.value)
    }
}

/// A page-aligned address.
#[derive(Copy)]
pub struct PageAddress<ATYPE: AddressType> {
    inner: Address<ATYPE>,
}

impl<ATYPE: AddressType> Clone for PageAddress<ATYPE> {
    fn clone(&self) -> (r: Self)
        ensures
            r == *self,
    {
        *self
    }
}

impl<ATYPE: AddressType> View for PageAddress<ATYPE> {
    type V = usize;

    closed spec fn view(&self) -> usize {
        self.inner@
    }
}

impl<ATYPE: AddressType> PageAddress<ATYPE> {
    #[verifier::type_invariant]
    spec fn aligned(self) -> bool {
        self.inner@ % KERNEL_GRANULE_SIZE == 0
    }

    /// The page that starts at `addr`.
    pub fn new(addr: usize) -> (r: Self)
        requires
            addr % KERNEL_GRANULE_SIZE == 0,
        ensures
            r@ == addr,
    {
        PageAddress { inner: Address::new(addr) }
    }

    /// The page address as a plain address.
    pub fn into_inner(self) -> (r: Address<ATYPE>)
        ensures
            r@ == self@,
            r@ % KERNEL_GRANULE_SIZE == 0,
    {
        proof {
            use_type_invariant(&self);
        }
        self.inner
    }

    /// The page `count` pages away, if it is an address.
    pub fn checked_offset(self, count: isize) -> (r: Option<Self>)
        ensures
            r is Some <==> 0 <= self@ + count * KERNEL_GRANULE_SIZE <= usize::MAX,
            r matches Some(p) ==> p@ == self@ + count * KERNEL_GRANULE_SIZE,
    {
        proof {
            use_type_invariant(&self);
        }
        let v = self.inner.as_usize();
        if count >= 0 {
            let c = count as usize;
            if c > (usize::MAX - v) / KERNEL_GRANULE_SIZE {
                assert(c * KERNEL_GRANULE_SIZE > usize::MAX - v) by (nonlinear_arith)
                    requires c > (usize::MAX - v) / 65536;
                return None;
            }
            assert(c * KERNEL_GRANULE_SIZE <= usize::MAX - v) by (nonlinear_arith)
                requires c <= (usize::MAX - v) / 65536;
            let r = v + c * KERNEL_GRANULE_SIZE;
            assert(r % 65536 == 0) by (nonlinear_arith)
                requires r == v + c * 65536, v % 65536 == 0;
            Some(PageAddress { inner: Address::new(r) })
        } else {
            let c: usize = (-(count + 1)) as usize + 1;
            assert(c == -count);
            if c > v / KERNEL_GRANULE_SIZE {
                assert(c * KERNEL_GRANULE_SIZE > v) by (nonlinear_arith)
                    requires c > v / 65536, v % 65536 == 0;
                return None;
            }
            assert(c * KERNEL_GRANULE_SIZE <= v) by (nonlinear_arith)
                requires c <= v / 65536;
            let r = v - c * KERNEL_GRANULE_SIZE;
            assert(r % 65536 == 0) by (nonlinear_arith)
                requires r == v - c * 65536, v % 65536 == 0;
            Some(PageAddress { inner: Address::new(r) })
        }
    }
}

/// A range of whole pages, from a start page up to an exclusive end page.
#[derive(Copy)]
pub struct MemoryRegion<ATYPE: AddressType> {
    start: PageAddress<ATYPE>,
    end_exclusive: PageAddress<ATYPE>,
}

impl<ATYPE: AddressType> Clone for MemoryRegion<ATYPE> {
    fn clone(&self) -> (r: Self)
        ensures
            r == *self,
    {
        *self
    }
}

/// The bounds of a memory region.
pub struct RegionView {
    pub start: usize,
    pub end_exclusive: usize,
}

impl<ATYPE: AddressType> View for MemoryRegion<ATYPE> {
    type V = RegionView;

    closed spec fn view(&self) -> RegionView {
        RegionView { start: self.start@, end_exclusive: self.end_exclusive@ }
    }
}

impl<ATYPE: AddressType> MemoryRegion<ATYPE> {
    #[verifier::type_invariant]
    spec fn ordered(self) -> bool {
        self.start@ <= self.end_exclusive@
    }

    /// The pages from `start` up to, not including, `end_exclusive`.
    pub fn new(start: PageAddress<ATYPE>, end_exclusive: PageAddress<ATYPE>) -> (r: Self)
        requires
            start@ <= end_exclusive@,
        ensures
            r@ == (RegionView { start: start@, end_exclusive: end_exclusive@ }),
    {
        MemoryRegion { start, end_exclusive }
    }

    /// The first page.
    pub fn start_page_addr(&self) -> (r: PageAddress<ATYPE>)
        ensures
            r@ == self@.start,
    {
        self.start
    }

    /// The first page as a plain address.
    pub fn start_addr(&self) -> (r: Address<ATYPE>)
        ensures
            r@ == self@.start,
    {
        self.start.into_inner()
    }

    /// The page after the last one.
    pub fn end_exclusive_page_addr(&self) -> (r: PageAddress<ATYPE>)
        ensures
            r@ == self@.end_exclusive,
    {
        self.end_exclusive
    }

    /// Number of pages in the region.
    pub fn num_pages(&self) -> (r: usize)
        ensures
            self@.start <= self@.end_exclusive,
            r == (self@.end_exclusive - self@.start) / (KERNEL_GRANULE_SIZE as int),
    {
        proof {
            use_type_invariant(self);
        }
        (self.end_exclusive.into_inner().as_usize() - self.start.into_inner().as_usize()) / KERNEL_GRANULE_SIZE
    }

    /// The region holds the address `addr`.
    pub fn contains(&self, addr: Address<ATYPE>) -> (r: bool)
        ensures
            r == (self@.start <= addr@ < self@.end_exclusive),
    {
        let a = addr.as_usize();
        self.start.into_inner().as_usize() <= a && a < self.end_exclusive.into_inner().as_usize()
    }
}

/// Number of pages of a segment of `size` bytes.
fn size_to_num_pages(size: usize) -> (r: usize)
    requires
        size > 0,
        size % KERNEL_GRANULE_SIZE == 0,
    ensures
        r == size / KERNEL_GRANULE_SIZE,
{
    assert(size >> 16usize == size / 65536) by (bit_vector);
    size >> KERNEL_GRANULE_SHIFT
}

/// The bounds a linker-provided segment from `start` of `size` bytes must
/// have: whole pages, at least one, within the address space.
pub open spec fn valid_segment(start: usize, size: usize) -> bool {
    &&& size > 0
    &&& size % KERNEL_GRANULE_SIZE == 0
    &&& start % KERNEL_GRANULE_SIZE == 0
    &&& start + size <= usize::MAX
}

/// The pages of the segment from `start` of `size` bytes.
fn segment_region(start: usize, size: usize) -> (r: MemoryRegion<Virtual>)
    requires
        valid_segment(start, size),
    ensures
        r@ == (RegionView { start, end_exclusive: (start + size) as usize }),
{
    let num_pages = size_to_num_pages(size);
    let start_page_addr: PageAddress<Virtual> = PageAddress::new(start);
    assert(num_pages * KERNEL_GRANULE_SIZE == size) by (nonlinear_arith)
        requires num_pages == size / 65536, size % 65536 == 0;
    let end_exclusive_page_addr = start_page_addr.checked_offset(num_pages as isize).unwrap();
    MemoryRegion::new(start_page_addr, end_exclusive_page_addr)
}

/// The code pages of the kernel binary, from the linker-provided start and
/// size of the code segment.
pub fn virt_code_region(code_start: usize, code_size: usize) -> (r: MemoryRegion<Virtual>)
    requires
        valid_segment(code_start, code_size),
    ensures
        r@ == (RegionView { start: code_start, end_exclusive: (code_start + code_size) as usize }),
{
    segment_region(code_start, code_size)
}

/// The data pages of the kernel binary, from the linker-provided start and
/// size of the data segment.
pub fn virt_data_region(data_start: usize, data_size: usize) -> (r: MemoryRegion<Virtual>)
    requires
        valid_segment(data_start, data_size),
    ensures
        r@ == (RegionView { start: data_start, end_exclusive: (data_start + data_size) as usize }),
{
    segment_region(data_start, data_size)
}

/// The heap pages, from the linker-provided start and size of the heap.
pub fn virt_heap_region(heap_start: usize, heap_size: usize) -> (r: MemoryRegion<Virtual>)
    requires
        valid_segment(heap_start, heap_size),
    ensures
        r@ == (RegionView { start: heap_start, end_exclusive: (heap_start + heap_size) as usize }),
{
    segment_region(heap_start, heap_size)
}

/// The boot core stack pages, from the linker-provided start and size of
/// the stack.
pub fn virt_boot_core_stack_region(stack_start: usize, stack_size: usize) -> (r: MemoryRegion<Virtual>)
    requires
        valid_segment(stack_start, stack_size),
    ensures
        r@ == (RegionView { start: stack_start, end_exclusive: (stack_start + stack_size) as usize }),
{
    segment_region(stack_start, stack_size)
}

/// The MMIO remap pages, from the linker-provided start and size of the
/// reservation.
pub fn virt_mmio_remap_region(remap_start: usize, remap_size: usize) -> (r: MemoryRegion<Virtual>)
    requires
        valid_segment(remap_start, remap_size),
    ensures
        r@ == (RegionView { start: remap_start, end_exclusive: (remap_start + remap_size) as usize }),
{
    segment_region(remap_start, remap_size)
}

/// The physical pages behind the kernel's virtual region `virt_region`,
/// given the physical page `phys_start` its first page translates to: the
/// kernel binary is mapped linearly, page for page.
pub fn kernel_virt_to_phys_region(virt_region: &MemoryRegion<Virtual>, phys_start: PageAddress<Physical>) -> (r: MemoryRegion<Physical>)
    requires
        phys_start@ + (virt_region@.end_exclusive - virt_region@.start) <= usize::MAX,
    ensures
        r@ == (RegionView {
            start: phys_start@,
            end_exclusive: (phys_start@ + (virt_region@.end_exclusive - virt_region@.start)) as usize,
        }),
{
    proof {
        use_type_invariant(virt_region);
        use_type_invariant(&virt_region.start);
        use_type_invariant(&virt_region.end_exclusive);
    }
    let num_pages = virt_region.num_pages();
    let ghost size = virt_region@.end_exclusive - virt_region@.start;
    assert(num_pages * KERNEL_GRANULE_SIZE == size) by (nonlinear_arith)
        requires
            num_pages == size / 65536,
            size % 65536 == 0,
            size >= 0,
    ;
    let phys_end_exclusive = phys_start.checked_offset(num_pages as isize).unwrap();
    MemoryRegion::new(phys_start, phys_end_exclusive)
}

/// Exclusive end address of the physical address space.
pub fn phys_addr_space_end_exclusive_addr() -> (r: PageAddress<Physical>)
    ensures
        r@ == PHYS_ADDR_SPACE_END,
{
    PageAddress::new(PHYS_ADDR_SPACE_END)
}

impl Address<Virtual> {
    /// Checks if the address is part of the boot core stack region.
    pub fn is_valid_stack_addr(&self, boot_core_stack: &MemoryRegion<Virtual>) -> (r: bool)
        ensures
            r == (boot_core_stack@.start <= self@ < boot_core_stack@.end_exclusive),
    {
        boot_core_stack.contains(*self)
    }

    /// Checks if the address is part of the kernel code region.
    pub fn is_valid_code_addr(&self, code: &MemoryRegion<Virtual>) -> (r: bool)
        ensures
            r == (code@.start <= self@ < code@.end_exclusive),
    {
        code.contains(*self)
    }
}

/// `n` is a power of two.
pub open spec fn is_power_of_two(n: nat) -> bool
    decreases n,
{
    if n == 0 {
        false
    } else if n == 1 {
        true
    } else {
        n % 2 == 0 && is_power_of_two(n / 2)
    }
}

/// A translation granule of `GRANULE_SIZE` bytes.
pub struct TranslationGranule<const GRANULE_SIZE: usize>;

impl<const GRANULE_SIZE: usize> TranslationGranule<GRANULE_SIZE> {
    /// The granule's size, which must be a power of two.
    pub fn size_checked() -> (r: usize)
        requires
            is_power_of_two(GRANULE_SIZE as nat),
        ensures
            r == GRANULE_SIZE,
    {
        GRANULE_SIZE
    }
}

/// The translation granule the kernel uses.
pub type KernelGranule = TranslationGranule<KERNEL_GRANULE_SIZE>;

/// An address space of `AS_SIZE` bytes.
pub struct AddressSpace<const AS_SIZE: usize>;

impl<const AS_SIZE: usize> AddressSpace<AS_SIZE> {
    /// The address space size, which must be a power of two.
    pub fn size_checked() -> (r: usize)
        requires
            is_power_of_two(AS_SIZE as nat),
        ensures
            r == AS_SIZE,
    {
        AS_SIZE
    }
}

/// MMU enable errors variants.
#[derive(Clone, Copy, Debug)]
pub enum MMUEnableError {
    AlreadyEnabled,
    Other(&'static str),
}

impl MMUEnableError {
    /// A description of the error.
    pub fn message(&self) -> (r: &'static str)
        ensures
            self is AlreadyEnabled ==> r@ == "MMU is already enabled"@,
            self matches MMUEnableError::Other(x) ==> r@ == x@,
    {
        match self {
            MMUEnableError::AlreadyEnabled => "MMU is already enabled",
            MMUEnableError::Other(x) => x,
        }
    }
}

} // verus!
