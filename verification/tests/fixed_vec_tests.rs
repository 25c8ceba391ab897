use vector_graphics::fixed_vec::FixedSizeVec;

#[test]
fn new_fills_backing_storage_to_capacity() {
    let v: FixedSizeVec<u8> = FixedSizeVec::new(7, 5);
    assert_eq!(v.length, 0);
    assert_eq!(v.data.len(), 5);
    assert!(v.data.iter().all(|&b| b == 7));
}

#[test]
fn push_overwrites_slots_in_order() {
    let mut v: FixedSizeVec<i32> = FixedSizeVec::new(0, 3);
    v.push(10);
    v.push(20);
    assert_eq!(v.length, 2);
    assert_eq!(v.data[0], 10);
    assert_eq!(v.data[1], 20);
    // The backing storage never grows.
    assert_eq!(v.data.len(), 3);
}

#[test]
fn clear_resets_length_but_keeps_storage() {
    let mut v: FixedSizeVec<i32> = FixedSizeVec::new(0, 3);
    v.push(10);
    v.push(20);
    v.clear();
    assert_eq!(v.length, 0);
    assert_eq!(v.data.len(), 3);
    // Old contents stay in the backing storage, logically absent.
    assert_eq!(v.data[0], 10);
    v.push(30);
    assert_eq!(v.data[0], 30);
    assert_eq!(v.length, 1);
}
