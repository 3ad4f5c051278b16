use vstd::prelude::*;

use crate::ledger::{is_exclusive, shared_count, Ledger, LoanError};
use crate::store::{le_u32, put_le_u32, views, viewed_bytes, Handle, Store, Stored, ViewError};

verus! {

/// Why a scoped access to a buffer failed.
#[derive(Clone, Copy, Debug, PartialEq, Eq, Structural)]
pub enum AccessError {
    /// The handle refers to no live buffer.
    NotABuffer,
    /// The ledger refused the borrow.
    Loan(LoanError),
    /// The element index lies past the last whole element of the view.
    OutOfBounds,
}

/// Whether `h` refers to a live buffer of `s`.
pub open spec fn live(s: Seq<Stored>, h: Handle) -> bool {
    h.spec_id() < s.len() && s[h.spec_id() as int].bytes.is_some()
}

/// The bytes of the live buffer `h` refers to.
pub open spec fn live_bytes(s: Seq<Stored>, h: Handle) -> Seq<u8> {
    s[h.spec_id() as int].bytes.unwrap()
}

/// Borrows the buffer `h` shared, reads its element `i` as a little-endian
/// `u32`, and gives the borrow back. The ledger is the same afterwards on every
/// path, the failing ones included.
pub fn read_u32(store: &Store, ledger: &mut Ledger, h: Handle, i: usize) -> (r: Result<
    u32,
    AccessError,
>)
    requires
        old(ledger).wf(),
        shared_count(old(ledger)@, h.spec_id()) < usize::MAX,
    ensures
        final(ledger).wf(),
        final(ledger)@ == old(ledger)@,
        !live(store@, h) ==> r == Err::<u32, AccessError>(AccessError::NotABuffer),
        live(store@, h) && is_exclusive(old(ledger)@, h.spec_id()) ==> r == Err::<
            u32,
            AccessError,
        >(AccessError::Loan(LoanError::Mutating)),
        live(store@, h) && !is_exclusive(old(ledger)@, h.spec_id()) && i >= live_bytes(
            store@,
            h,
        ).len() / 4 ==> r == Err::<u32, AccessError>(AccessError::OutOfBounds),
        live(store@, h) && !is_exclusive(old(ledger)@, h.spec_id()) && i < live_bytes(
            store@,
            h,
        ).len() / 4 ==> r == Ok::<u32, AccessError>(le_u32(live_bytes(store@, h), 4 * i) as u32),
{
    let data = match store.data(h) {
        Ok(d) => d,
        Err(ViewError::NotABuffer) => {
            return Err(AccessError::NotABuffer);
        },
    };
    let guard = match ledger.try_borrow(data) {
        Ok(g) => g,
        Err(e) => {
            return Err(AccessError::Loan(e));
        },
    };
    let result = if i < data.len() / 4 {
        Ok(store.get_u32(&guard, i))
    } else {
        Err(AccessError::OutOfBounds)
    };
    ledger.release(guard);
    proof {
        crate::ledger::lemma_release_undoes_borrow(old(ledger)@, h.spec_id());
    }
    result
}

/// Borrows the buffer `h` exclusively, writes `x` as its element `i` in
/// little-endian order, and gives the borrow back. The ledger is the same
/// afterwards on every path; the store changes only when the write is made.
pub fn write_u32(store: &mut Store, ledger: &mut Ledger, h: Handle, i: usize, x: u32) -> (r:
    Result<(), AccessError>)
    requires
        old(ledger).wf(),
    ensures
        final(ledger).wf(),
        final(ledger)@ == old(ledger)@,
        r.is_err() ==> final(store)@ == old(store)@,
        !live(old(store)@, h) ==> r == Err::<(), AccessError>(AccessError::NotABuffer),
        live(old(store)@, h) && old(ledger)@.contains_key(h.spec_id()) ==> r == Err::<
            (),
            AccessError,
        >(AccessError::Loan(LoanError::Borrowing)),
        live(old(store)@, h) && !old(ledger)@.contains_key(h.spec_id()) && i >= live_bytes(
            old(store)@,
            h,
        ).len() / 4 ==> r == Err::<(), AccessError>(AccessError::OutOfBounds),
        live(old(store)@, h) && !old(ledger)@.contains_key(h.spec_id()) && i < live_bytes(
            old(store)@,
            h,
        ).len() / 4 ==> r == Ok::<(), AccessError>(()) && final(store)@ == old(store)@.update(
            h.spec_id() as int,
            Stored {
                bytes: Some(put_le_u32(live_bytes(old(store)@, h), 4 * i, x)),
                ..old(store)@[h.spec_id() as int]
            },
        ),
{
    let data = match store.data(h) {
        Ok(d) => d,
        Err(ViewError::NotABuffer) => {
            return Err(AccessError::NotABuffer);
        },
    };
    let guard = match ledger.try_borrow_mut(data) {
        Ok(g) => g,
        Err(e) => {
            return Err(AccessError::Loan(e));
        },
    };
    let result = if i < data.len() / 4 {
        store.set_u32(&guard, i, x);
        Ok(())
    } else {
        Err(AccessError::OutOfBounds)
    };
    ledger.release_mut(guard);
    proof {
        crate::ledger::lemma_release_undoes_borrow(old(ledger)@, h.spec_id());
    }
    result
}

} // verus!
