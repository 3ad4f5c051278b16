//! Binary objects of the host's "Buffer" kind.
use vstd::prelude::*;

use crate::binary::BinaryData;
use crate::store::{after_add, BinaryKind, Handle, Store, ViewError, views};

verus! {

/// Creates a zero-filled buffer of `size` bytes.
pub fn new(store: &mut Store, size: u32) -> (h: Handle)
    ensures
        final(store)@ == after_add(
            old(store)@,
            Seq::new(size as nat, |i: int| 0u8),
            BinaryKind::Buffer,
            false,
        ),
        h.spec_id() == old(store)@.len(),
{
    store.create(BinaryKind::Buffer, size as usize)
}

/// Creates a buffer of `size` bytes whose contents are left unspecified.
pub fn uninitialized(store: &mut Store, size: u32) -> (h: Handle)
    ensures
        final(store)@.len() == old(store)@.len() + 1,
        final(store)@.take(old(store)@.len() as int) == old(store)@,
        final(store)@.last().kind == BinaryKind::Buffer,
        !final(store)@.last().external,
        final(store)@.last().bytes.is_some(),
        final(store)@.last().bytes.unwrap().len() == size,
        h.spec_id() == old(store)@.len(),
{
    let h = store.create(BinaryKind::Buffer, size as usize);
    proof {
        assert(final(store)@.take(old(store)@.len() as int) =~= old(store)@);
    }
    h
}

/// Adopts a natively owned byte container as a buffer: the same bytes, in the
/// same order, become its contents.
pub fn new_external(store: &mut Store, data: Vec<u8>) -> (h: Handle)
    ensures
        final(store)@ == after_add(old(store)@, data@, BinaryKind::Buffer, true),
        h.spec_id() == old(store)@.len(),
{
    store.adopt(BinaryKind::Buffer, data)
}

/// A view of the buffer `h` refers to. Refused with `NotABuffer` when `h` is
/// not a live buffer of this kind.
pub fn data(store: &Store, h: Handle) -> (r: Result<BinaryData, ViewError>)
    ensures
        match r {
            Ok(d) => {
                &&& d.buffer_id() == h.spec_id()
                &&& views(store@, d)
                &&& store@[h.spec_id() as int].kind == BinaryKind::Buffer
            },
            Err(e) => {
                &&& e == ViewError::NotABuffer
                &&& (h.spec_id() >= store@.len() || store@[h.spec_id() as int].bytes.is_none()
                    || store@[h.spec_id() as int].kind != BinaryKind::Buffer)
            },
        },
{
    store.data_of_kind(BinaryKind::Buffer, h)
}

} // verus!
