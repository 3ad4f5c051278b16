use neon_binary::{arraybuffer, buffer};
use neon_binary::binary::BinaryData;
use neon_binary::ledger::{Ledger, Loan, LoanError};
use neon_binary::store::Store;

fn view_of(store: &mut Store, size: u32) -> BinaryData {
    let h = buffer::new(store, size);
    store.data(h).unwrap()
}

#[test]
fn nested_shared_borrows_block_exclusive_until_released() {
    let mut store = Store::new();
    let x = view_of(&mut store, 8);
    let mut ledger = Ledger::new();

    let outer = ledger.try_borrow(x).expect("first shared borrow");
    let inner = ledger.try_borrow(x).expect("second shared borrow");
    assert_eq!(ledger.loan(x.id()), Some(Loan::Shared(2)));
    assert!(matches!(ledger.try_borrow_mut(x), Err(LoanError::Borrowing)));

    ledger.release(inner);
    assert_eq!(ledger.loan(x.id()), Some(Loan::Shared(1)));
    assert!(matches!(ledger.try_borrow_mut(x), Err(LoanError::Borrowing)));
    ledger.release(outer);
    assert!(ledger.is_empty());

    let exclusive = ledger.try_borrow_mut(x).expect("exclusive after release");
    assert_eq!(ledger.loan(x.id()), Some(Loan::Exclusive));
    ledger.release_mut(exclusive);
    assert!(ledger.is_empty());
}

#[test]
fn shared_borrow_refused_while_exclusive() {
    let mut store = Store::new();
    let x = view_of(&mut store, 4);
    let mut ledger = Ledger::new();

    let w = ledger.try_borrow_mut(x).expect("exclusive borrow");
    assert!(matches!(ledger.try_borrow(x), Err(LoanError::Mutating)));
    assert!(matches!(ledger.try_borrow_mut(x), Err(LoanError::Borrowing)));
    assert_eq!(ledger.loan(x.id()), Some(Loan::Exclusive));

    ledger.release_mut(w);
    let r = ledger.try_borrow(x).expect("shared after release");
    assert_eq!(ledger.loan(x.id()), Some(Loan::Shared(1)));
    ledger.release(r);
    assert_eq!(ledger.loan(x.id()), None);
}

#[test]
fn borrows_of_distinct_buffers_do_not_collide() {
    let mut store = Store::new();
    let a = view_of(&mut store, 4);
    let b = view_of(&mut store, 4);
    let mut ledger = Ledger::new();

    let wa = ledger.try_borrow_mut(a).expect("exclusive a");
    let rb = ledger.try_borrow(b).expect("shared b");
    assert_eq!(ledger.loan(a.id()), Some(Loan::Exclusive));
    assert_eq!(ledger.loan(b.id()), Some(Loan::Shared(1)));
    ledger.release(rb);
    ledger.release_mut(wa);
    assert!(ledger.is_empty());
}

#[test]
fn two_handles_to_one_buffer_collide() {
    let mut store = Store::new();
    let h = arraybuffer::new(&mut store, 16);
    let copy = h;
    let mut ledger = Ledger::new();

    let first = store.data(h).unwrap();
    let second = store.data(copy).unwrap();
    let r = ledger.try_borrow(first).expect("shared borrow");
    assert!(matches!(ledger.try_borrow_mut(second), Err(LoanError::Borrowing)));
    ledger.release(r);
    let w = ledger.try_borrow_mut(second).expect("exclusive borrow");
    ledger.release_mut(w);
    assert!(ledger.is_empty());
}

#[test]
fn closure_borrow_releases_afterwards() {
    let mut store = Store::new();
    let x = view_of(&mut store, 12);
    let mut ledger = Ledger::new();

    let len = ledger.with_borrow(x, |g| g.data().len());
    assert_eq!(len, Ok(12));
    assert!(ledger.is_empty());

    let w = ledger.try_borrow_mut(x).expect("exclusive borrow");
    assert_eq!(ledger.with_borrow(x, |g| g.data().len()), Err(LoanError::Mutating));
    assert_eq!(ledger.with_borrow_mut(x, |g| g.data().len()), Err(LoanError::Borrowing));
    assert_eq!(ledger.loan(x.id()), Some(Loan::Exclusive));
    ledger.release_mut(w);

    assert_eq!(ledger.with_borrow_mut(x, |g| g.data().id()), Ok(x.id()));
    assert!(ledger.is_empty());
}

#[test]
fn closure_borrow_nested_inside_shared_borrow() {
    let mut store = Store::new();
    let x = view_of(&mut store, 3);
    let mut ledger = Ledger::new();

    let outer = ledger.try_borrow(x).expect("shared borrow");
    assert_eq!(ledger.with_borrow(x, |g| g.data().len()), Ok(3));
    assert_eq!(ledger.loan(x.id()), Some(Loan::Shared(1)));
    ledger.release(outer);
    assert!(ledger.is_empty());
}
