use neon_binary::{arraybuffer, buffer};
use neon_binary::binary::BinaryData;
use neon_binary::store::{BinaryKind, Handle, Store, ViewError};

fn sized(size: u32) -> BinaryData {
    let mut store = Store::new();
    let h = buffer::new(&mut store, size);
    store.data(h).unwrap()
}

#[test]
fn element_count_truncates_partial_elements() {
    let d = sized(10);
    assert_eq!(d.len(), 10);
    assert!(!d.is_empty());
    assert_eq!(d.element_count::<u8>(), 10);
    assert_eq!(d.element_count::<i8>(), 10);
    assert_eq!(d.element_count::<u16>(), 5);
    assert_eq!(d.element_count::<i16>(), 5);
    assert_eq!(d.element_count::<u32>(), 2);
    assert_eq!(d.element_count::<i32>(), 2);
    assert_eq!(d.element_count::<u64>(), 1);
    assert_eq!(d.element_count::<i64>(), 1);
}

#[test]
fn element_count_exact_division() {
    let d = sized(16);
    assert_eq!(d.element_count::<u32>(), 4);
    assert_eq!(d.element_count::<u64>(), 2);
}

#[test]
fn zero_length_buffer_gives_empty_view() {
    let d = sized(0);
    assert_eq!(d.len(), 0);
    assert!(d.is_empty());
    assert_eq!(d.element_count::<u8>(), 0);
    assert_eq!(d.element_count::<u16>(), 0);
    assert_eq!(d.element_count::<u32>(), 0);
    assert_eq!(d.element_count::<i64>(), 0);
}

#[test]
fn short_buffer_has_no_wide_elements() {
    let d = sized(3);
    assert_eq!(d.element_count::<u32>(), 0);
    assert_eq!(d.element_count::<u16>(), 1);
}

#[test]
fn new_buffers_are_zeroed_and_kinded() {
    let mut store = Store::new();
    let b = buffer::new(&mut store, 4);
    let a = arraybuffer::new(&mut store, 2);
    assert_eq!(store.count(), 2);
    assert_eq!(store.kind(b), Some(BinaryKind::Buffer));
    assert_eq!(store.kind(a), Some(BinaryKind::ArrayBuffer));
    assert_ne!(b.id(), a.id());
    let mut ledger = neon_binary::ledger::Ledger::new();
    let g = ledger.try_borrow(store.data(b).unwrap()).unwrap();
    assert_eq!(store.as_slice(&g).to_vec(), vec![0u8, 0, 0, 0]);
    ledger.release(g);
}

#[test]
fn handle_to_missing_buffer_is_not_a_buffer() {
    let mut store = Store::new();
    let first = buffer::new(&mut store, 1);
    let mut other = Store::new();
    let _ = buffer::new(&mut other, 1);
    let stray: Handle = buffer::new(&mut other, 1);
    assert!(store.data(first).is_ok());
    assert_eq!(store.data(stray).err(), Some(ViewError::NotABuffer));
    assert_eq!(store.kind(stray), None);
}

#[test]
fn kind_checked_views() {
    let mut store = Store::new();
    let b = buffer::new(&mut store, 4);
    let a = arraybuffer::new(&mut store, 6);
    assert_eq!(buffer::data(&store, b).unwrap().len(), 4);
    assert_eq!(arraybuffer::data(&store, a).unwrap().len(), 6);
    assert_eq!(buffer::data(&store, a).err(), Some(ViewError::NotABuffer));
    assert_eq!(arraybuffer::data(&store, b).err(), Some(ViewError::NotABuffer));
    assert_eq!(store.data(a).unwrap().len(), 6);
}

#[test]
fn uninitialized_buffer_has_requested_length() {
    let mut store = Store::new();
    let _ = buffer::new(&mut store, 1);
    let h = buffer::uninitialized(&mut store, 16);
    assert_eq!(h.id(), 1);
    assert_eq!(store.kind(h), Some(BinaryKind::Buffer));
    let d = buffer::data(&store, h).unwrap();
    assert_eq!(d.len(), 16);
    assert_eq!(d.element_count::<u32>(), 4);
}

#[test]
fn create_and_adopt_by_kind() {
    let mut store = Store::new();
    let a = store.create(BinaryKind::ArrayBuffer, 5);
    let e = store.adopt(BinaryKind::Buffer, vec![7u8, 7]);
    assert_eq!(store.kind(a), Some(BinaryKind::ArrayBuffer));
    assert_eq!(store.data(e).unwrap().len(), 2);
    assert_eq!(store.reclaim(a), None);
    assert_eq!(store.reclaim(e), Some(vec![7u8, 7]));
}
