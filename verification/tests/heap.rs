use lib::heap::{
    alloc_item, allocate, box_free, dealloc, free, init, malloc, ArrayAlloc, Error, HeapBlock,
    HeapId, HeapRequest, MALLOC_ALIGN, ZERO_ALLOC,
};

#[test]
fn init_does_nothing() {
    init();
}

#[test]
fn allocate_from_global_heap() {
    assert_eq!(allocate(HeapId::Global, Ok(0x1000)), Some(0x1000));
    assert_eq!(allocate(HeapId::Global, Err(Error::OutOfMemory)), None);
    assert_eq!(allocate(HeapId::Global, Err(Error::OutOfReservation)), None);
    assert_eq!(allocate(HeapId::Global, Err(Error::Corrupted)), None);
}

#[test]
fn malloc_asks_for_sixteen_byte_alignment() {
    assert_eq!(malloc(24), HeapRequest { size: 24, align: 16 });
    assert_eq!(MALLOC_ALIGN, 16);
}

#[test]
fn free_of_null_hands_back_nothing() {
    assert_eq!(free(0), None);
    assert_eq!(free(0x2000), Some(HeapBlock { addr: 0x2000, size: 0, align: 16 }));
}

#[test]
fn alloc_and_dealloc_use_the_type_layout() {
    assert_eq!(alloc_item::<u64>(), HeapRequest { size: 8, align: 8 });
    assert_eq!(alloc_item::<[u16; 3]>(), HeapRequest { size: 6, align: 2 });
    assert_eq!(dealloc::<u32>(0x40), HeapBlock { addr: 0x40, size: 4, align: 4 });
}

#[test]
fn box_free_of_zero_sized_type_hands_back_nothing() {
    assert_eq!(box_free::<()>(0x10), None);
    assert_eq!(box_free::<u16>(0x10), Some(HeapBlock { addr: 0x10, size: 2, align: 2 }));
}

#[test]
fn array_new_request() {
    assert_eq!(ArrayAlloc::<u32>::new_request(0), None);
    assert_eq!(ArrayAlloc::<()>::new_request(5), None);
    assert_eq!(ArrayAlloc::<u32>::new_request(5), Some(HeapRequest { size: 20, align: 4 }));
}

#[test]
fn array_new_of_zero_sized_type() {
    let a = ArrayAlloc::<()>::new(5, None);
    assert_eq!(a.count(), usize::MAX);
    assert_eq!(a.get_base(), ZERO_ALLOC);
}

#[test]
fn array_new_empty() {
    let a = ArrayAlloc::<u64>::new(0, None);
    assert_eq!(a.count(), 0);
    assert_eq!(a.get_base(), ZERO_ALLOC);
    assert_eq!(a.release(), None);
}

#[test]
fn array_new_with_block() {
    let mut a = ArrayAlloc::<u64>::new(4, Some(0x1000));
    assert_eq!(a.count(), 4);
    assert_eq!(a.get_base(), 0x1000);
    assert_eq!(a.get_base_mut(), 0x1000);
    assert_eq!(a.get_ptr(0), 0x1000);
    assert_eq!(a.get_ptr(3), 0x1018);
    assert_eq!(a.get_ptr_mut(2), 0x1010);
    assert_eq!(a.release(), Some(HeapBlock { addr: 0x1000, size: 32, align: 8 }));
    assert_eq!(a.into_raw(), (0x1000, 4));
}

#[test]
fn array_expand() {
    let mut a = ArrayAlloc::<u32>::new(4, Some(0x1000));
    assert_eq!(a.expand_request(8), Some(32));
    assert!(!a.expand(8, false));
    assert_eq!(a.count(), 4);
    assert!(a.expand(8, true));
    assert_eq!(a.count(), 8);
    assert_eq!(a.expand_request(8), None);
    assert!(a.expand(6, false));
    assert_eq!(a.count(), 8);
    assert_eq!(a.get_base(), 0x1000);
}

#[test]
fn array_shrink() {
    let mut a = ArrayAlloc::<u32>::new(8, Some(0x1000));
    assert_eq!(a.shrink(8), None);
    assert_eq!(a.count(), 8);
    assert_eq!(a.shrink(10), None);
    assert_eq!(a.count(), 8);
    assert_eq!(a.shrink(3), Some(12));
    assert_eq!(a.count(), 3);
    assert_eq!(a.get_base(), 0x1000);
}

#[test]
fn array_shrink_after_expand_restores_count() {
    let mut a = ArrayAlloc::<u16>::new(2, Some(0x1000));
    assert!(a.expand(5, true));
    assert_eq!(a.shrink(2), Some(4));
    assert_eq!(a.count(), 2);
}

#[test]
fn array_from_raw() {
    let a = ArrayAlloc::<u8>::from_raw(0x3000, 16);
    assert_eq!(a.count(), 16);
    assert_eq!(a.get_ptr(15), 0x300f);
}

#[test]
fn array_debug_text() {
    let a = ArrayAlloc::<u64>::new(4, Some(0x1f00));
    assert_eq!(a.debug_text(), "ArrayAlloc { 0x1f00 + 4 }");
    let e = ArrayAlloc::<u64>::new(0, None);
    assert_eq!(e.debug_text(), "ArrayAlloc { 0x1 + 0 }");
}

#[test]
fn array_raw_round_trip() {
    let a = ArrayAlloc::<u32>::new(6, Some(0x4000));
    let (base, count) = a.into_raw();
    let b = ArrayAlloc::<u32>::from_raw(base, count);
    assert_eq!(b.get_base(), 0x4000);
    assert_eq!(b.count(), 6);
}
