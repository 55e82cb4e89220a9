use lib::page_array::PageArray;

#[test]
fn fresh_array_has_nothing_backed() {
    let arr = PageArray::new(10);
    assert_eq!(arr.capacity(), 10);
    assert_eq!(arr.get(0), None);
    assert_eq!(arr.get(9), None);
    assert_eq!(arr.get(10), None);
}

#[test]
fn get_alloc_backs_with_zero() {
    let mut arr = PageArray::new(10);
    assert_eq!(arr.get_alloc(3), 0);
    assert_eq!(arr.get(3), Some(0));
    assert_eq!(arr.get(4), None);
}

#[test]
fn set_then_get() {
    let mut arr = PageArray::new(10);
    arr.get_alloc(7);
    arr.set(7, 42);
    assert_eq!(arr.get(7), Some(42));
    assert_eq!(arr.get_alloc(7), 42);
}
