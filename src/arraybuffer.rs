//! Plain array buffers.
use vstd::prelude::*;

use crate::binary::BinaryData;
use crate::store::{after_add, BinaryKind, Handle, Store, ViewError, views};

verus! {

/// Creates a zero-filled array buffer of `size` bytes.
pub fn new(store: &mut Store, size: u32) -> (h: Handle)
    ensures
        final(store)@ == after_add(
            old(store)@,
            Seq::new(size as nat, |i: int| 0u8),
            BinaryKind::ArrayBuffer,
            false,
        ),
        h.spec_id() == old(store)@.len(),
{
    store.create(BinaryKind::ArrayBuffer, size as usize)
}

/// Adopts a natively owned byte container as an array buffer: the same bytes, in the
/// same order, become its contents.
pub fn new_external(store: &mut Store, data: Vec<u8>) -> (h: Handle)
    ensures
        final(store)@ == after_add(old(store)@, data@, BinaryKind::ArrayBuffer, true),
        h.spec_id() == old(store)@.len(),
{
    store.adopt(BinaryKind::ArrayBuffer, data)
}

/// A view of the array buffer `h` refers to. Refused with `NotABuffer` when `h` is
/// not a live array buffer.
pub fn data(store: &Store, h: Handle) -> (r: Result<BinaryData, ViewError>)
    ensures
        match r {
            Ok(d) => {
                &&& d.buffer_id() == h.spec_id()
                &&& views(store@, d)
                &&& store@[h.spec_id() as int].kind == BinaryKind::ArrayBuffer
            },
            Err(e) => {
                &&& e == ViewError::NotABuffer
                &&& (h.spec_id() >= store@.len() || store@[h.spec_id() as int].bytes.is_none()
                    || store@[h.spec_id() as int].kind != BinaryKind::ArrayBuffer)
            },
        },
{
    store.data_of_kind(BinaryKind::ArrayBuffer, h)
}

} // verus!
