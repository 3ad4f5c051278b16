use std::collections::HashMap;
use vstd::prelude::*;

use crate::binary::BinaryData;

verus! {

broadcast use vstd::std_specs::hash::group_hash_axioms;

/// How a buffer is currently lent out.
#[derive(Clone, Copy, Debug, PartialEq, Eq, Structural)]
pub enum Loan {
    /// Lent to this many readers at once.
    Shared(usize),
    /// Lent to a single writer.
    Exclusive,
}

/// Why a borrow was refused.
#[derive(Clone, Copy, Debug, PartialEq, Eq, Structural)]
pub enum LoanError {
    /// An exclusive borrow was asked for while the buffer is lent out in any way.
    Borrowing,
    /// A shared borrow was asked for while the buffer is lent out exclusively.
    Mutating,
}

/// Number of shared borrows recorded for `id` (zero when there is no entry or
/// the entry is exclusive).
pub open spec fn shared_count(m: Map<usize, Loan>, id: usize) -> nat {
    if m.contains_key(id) {
        match m[id] {
            Loan::Shared(n) => n as nat,
            Loan::Exclusive => 0,
        }
    } else {
        0
    }
}

/// Whether `id` is lent out exclusively.
pub open spec fn is_exclusive(m: Map<usize, Loan>, id: usize) -> bool {
    m.contains_key(id) && m[id] == Loan::Exclusive
}

/// Every shared entry counts at least one borrow. Together with a map holding
/// one entry per identity, this means a buffer is lent either to readers only
/// or to a single writer, never both.
pub open spec fn loans_valid(m: Map<usize, Loan>) -> bool {
    forall|id: usize|
        #![trigger m.contains_key(id)]
        m.contains_key(id) ==> match m[id] {
            Loan::Shared(n) => n >= 1,
            Loan::Exclusive => true,
        }
}

/// The loans after one more shared borrow of `id`.
pub open spec fn after_borrow(m: Map<usize, Loan>, id: usize) -> Map<usize, Loan> {
    m.insert(id, Loan::Shared((shared_count(m, id) + 1) as usize))
}

/// The loans after an exclusive borrow of `id`.
pub open spec fn after_borrow_mut(m: Map<usize, Loan>, id: usize) -> Map<usize, Loan> {
    m.insert(id, Loan::Exclusive)
}

/// The loans after one shared borrow of `id` is given back: the count drops by
/// one, and the entry goes when it reaches zero. Nothing changes when `id` is
/// not lent out shared.
pub open spec fn after_release(m: Map<usize, Loan>, id: usize) -> Map<usize, Loan> {
    if shared_count(m, id) > 1 {
        m.insert(id, Loan::Shared((shared_count(m, id) - 1) as usize))
    } else if shared_count(m, id) == 1 {
        m.remove(id)
    } else {
        m
    }
}

/// The loans after an exclusive borrow of `id` is given back. Nothing changes
/// when `id` is not lent out exclusively.
pub open spec fn after_release_mut(m: Map<usize, Loan>, id: usize) -> Map<usize, Loan> {
    if is_exclusive(m, id) {
        m.remove(id)
    } else {
        m
    }
}

/// A valid record never holds a buffer both as shared and as exclusive: an
/// identity with shared borrows is not exclusive, and an exclusive identity has
/// no shared borrows.
pub proof fn lemma_loans_never_mixed(m: Map<usize, Loan>, id: usize)
    requires
        loans_valid(m),
    ensures
        !(shared_count(m, id) >= 1 && is_exclusive(m, id)),
        m.contains_key(id) <==> (shared_count(m, id) >= 1 || is_exclusive(m, id)),
{
    if m.contains_key(id) {
        assert(match m[id] {
            Loan::Shared(n) => n >= 1,
            Loan::Exclusive => true,
        });
    }
}

/// Every transition of the record keeps it valid, whichever borrow is taken or
/// given back.
pub proof fn lemma_transitions_keep_loans_valid(m: Map<usize, Loan>, id: usize)
    requires
        loans_valid(m),
        shared_count(m, id) < usize::MAX,
    ensures
        !is_exclusive(m, id) ==> loans_valid(after_borrow(m, id)),
        !m.contains_key(id) ==> loans_valid(after_borrow_mut(m, id)),
        loans_valid(after_release(m, id)),
        loans_valid(after_release_mut(m, id)),
{
    assert forall|k: usize| #[trigger] after_release(m, id).contains_key(k) implies match after_release(m, id)[k] {
        Loan::Shared(n) => n >= 1,
        Loan::Exclusive => true,
    } by {
        assert(m.contains_key(k));
    }
    assert forall|k: usize| #[trigger] after_release_mut(m, id).contains_key(k) implies match after_release_mut(m, id)[k] {
        Loan::Shared(n) => n >= 1,
        Loan::Exclusive => true,
    } by {
        assert(m.contains_key(k));
    }
    if !is_exclusive(m, id) {
        assert forall|k: usize| #[trigger] after_borrow(m, id).contains_key(k) implies match after_borrow(m, id)[k] {
            Loan::Shared(n) => n >= 1,
            Loan::Exclusive => true,
        } by {
            if k != id {
                assert(m.contains_key(k));
            }
        }
    }
    if !m.contains_key(id) {
        assert forall|k: usize| #[trigger] after_borrow_mut(m, id).contains_key(k) implies match after_borrow_mut(m, id)[k] {
            Loan::Shared(n) => n >= 1,
            Loan::Exclusive => true,
        } by {
            if k != id {
                assert(m.contains_key(k));
            }
        }
    }
}

/// Giving a borrow back undoes taking it, exactly: after a shared borrow and its
/// release, or an exclusive borrow and its release, the record is what it was
/// before, however many other borrows were active.
pub proof fn lemma_release_undoes_borrow(m: Map<usize, Loan>, id: usize)
    requires
        loans_valid(m),
        shared_count(m, id) < usize::MAX,
    ensures
        !is_exclusive(m, id) ==> after_release(after_borrow(m, id), id) == m,
        !m.contains_key(id) ==> after_release_mut(after_borrow_mut(m, id), id) == m,
{
    if !is_exclusive(m, id) {
        let m1 = after_borrow(m, id);
        assert(shared_count(m1, id) == shared_count(m, id) + 1);
        if shared_count(m, id) == 0 {
            assert(!m.contains_key(id));
            assert(after_release(m1, id) =~= m);
        } else {
            assert(m.contains_key(id));
            assert(after_release(m1, id) =~= m);
        }
    }
    if !m.contains_key(id) {
        assert(after_release_mut(after_borrow_mut(m, id), id) =~= m);
    }
}

/// While a buffer is lent out shared, an exclusive borrow of it is refused
/// (its identity has an entry); once that shared borrow is given back on an
/// otherwise idle buffer, an exclusive borrow is allowed again. While it is
/// lent out exclusively, both kinds of borrow are refused, and once that
/// borrow is given back, both are allowed again.
pub proof fn lemma_exclusive_waits_for_release(m: Map<usize, Loan>, id: usize)
    requires
        loans_valid(m),
        !m.contains_key(id),
    ensures
        after_borrow(m, id).contains_key(id),
        !after_release(after_borrow(m, id), id).contains_key(id),
        is_exclusive(after_borrow_mut(m, id), id),
        after_borrow_mut(m, id).contains_key(id),
        !after_release_mut(after_borrow_mut(m, id), id).contains_key(id),
{
    lemma_release_undoes_borrow(m, id);
}

/// The record of the borrows that are active at one time, keyed by buffer
/// identity.
pub struct Ledger {
    entries: HashMap<usize, Loan>,
}

/// A shared borrow of a buffer. It can only be made by [`Ledger::try_borrow`]
/// and is given back with [`Ledger::release`].
pub struct Ref {
    data: BinaryData,
}

/// An exclusive borrow of a buffer. It can only be made by
/// [`Ledger::try_borrow_mut`] and is given back with [`Ledger::release_mut`].
pub struct RefMut {
    data: BinaryData,
}

impl Ref {
    pub closed spec fn view_data(&self) -> BinaryData {
        self.data
    }

    /// The view this guard lends.
    pub fn data(&self) -> (r: BinaryData)
        ensures
            r == self.view_data(),
    {
        self.data
    }
}

impl RefMut {
    pub closed spec fn view_data(&self) -> BinaryData {
        self.data
    }

    /// The view this guard lends.
    pub fn data(&self) -> (r: BinaryData)
        ensures
            r == self.view_data(),
    {
        self.data
    }
}

impl View for Ledger {
    type V = Map<usize, Loan>;

    closed spec fn view(&self) -> Map<usize, Loan> {
        self.entries@
    }
}

impl Ledger {
    pub open spec fn wf(&self) -> bool {
        loans_valid(self@)
    }

    /// A ledger with no active borrows.
    pub fn new() -> (r: Self)
        ensures
            r@ == Map::<usize, Loan>::empty(),
            r.wf(),
    {
        Ledger { entries: HashMap::new() }
    }

    /// Whether no borrow is active.
    pub fn is_empty(&self) -> (r: bool)
        ensures
            r == (self@.dom() == Set::<usize>::empty()),
    {
        proof {
            if self.entries@.len() == 0 {
                assert(self@.dom() =~= Set::<usize>::empty());
            } else if self@.dom() == Set::<usize>::empty() {
                assert(self@.dom().len() == 0);
            }
        }
        self.entries.len() == 0
    }

    /// How the buffer `id` is lent out, if at all.
    pub fn loan(&self, id: usize) -> (r: Option<Loan>)
        ensures
            r == (if self@.contains_key(id) {
                Some(self@[id])
            } else {
                None
            }),
    {
        match self.entries.get(&id) {
            Some(l) => Some(*l),
            None => None,
        }
    }

    /// Lends `data` out shared. Refused with `Mutating` when its buffer is lent
    /// out exclusively; otherwise the shared count of the buffer goes up by one.
    pub fn try_borrow(&mut self, data: BinaryData) -> (r: Result<Ref, LoanError>)
        requires
            old(self).wf(),
            shared_count(old(self)@, data.buffer_id()) < usize::MAX,
        ensures
            final(self).wf(),
            is_exclusive(old(self)@, data.buffer_id()) ==> r == Err::<Ref, LoanError>(
                LoanError::Mutating,
            ) && final(self)@ == old(self)@,
            !is_exclusive(old(self)@, data.buffer_id()) ==> r.is_ok() && r.unwrap().view_data()
                == data && final(self)@ == after_borrow(old(self)@, data.buffer_id()),
    {
        let id = data.id();
        let count: usize = match self.entries.get(&id) {
            Some(Loan::Exclusive) => {
                return Err(LoanError::Mutating);
            },
            Some(Loan::Shared(n)) => *n,
            None => 0,
        };
        self.entries.insert(id, Loan::Shared(count + 1));
        proof {
            assert forall|k: usize| #[trigger] self@.contains_key(k) implies match self@[k] {
                Loan::Shared(n) => n >= 1,
                Loan::Exclusive => true,
            } by {
                if k != id {
                    assert(old(self)@.contains_key(k));
                }
            }
        }
        Ok(Ref { data })
    }

    /// Lends `data` out exclusively. Refused with `Borrowing` when its buffer
    /// is lent out in any way; otherwise the buffer is recorded as exclusive.
    pub fn try_borrow_mut(&mut self, data: BinaryData) -> (r: Result<RefMut, LoanError>)
        requires
            old(self).wf(),
        ensures
            final(self).wf(),
            old(self)@.contains_key(data.buffer_id()) ==> r == Err::<RefMut, LoanError>(
                LoanError::Borrowing,
            ) && final(self)@ == old(self)@,
            !old(self)@.contains_key(data.buffer_id()) ==> r.is_ok() && r.unwrap().view_data()
                == data && final(self)@ == after_borrow_mut(old(self)@, data.buffer_id()),
    {
        let id = data.id();
        if self.entries.contains_key(&id) {
            return Err(LoanError::Borrowing);
        }
        self.entries.insert(id, Loan::Exclusive);
        proof {
            assert forall|k: usize| #[trigger] self@.contains_key(k) implies match self@[k] {
                Loan::Shared(n) => n >= 1,
                Loan::Exclusive => true,
            } by {
                if k != id {
                    assert(old(self)@.contains_key(k));
                }
            }
        }
        Ok(RefMut { data })
    }

    /// Gives a shared borrow back.
    pub fn release(&mut self, guard: Ref)
        requires
            old(self).wf(),
        ensures
            final(self).wf(),
            final(self)@ == after_release(old(self)@, guard.view_data().buffer_id()),
    {
        let id = guard.data.id();
        let count: usize = match self.entries.get(&id) {
            Some(Loan::Shared(n)) => *n,
            _ => 0,
        };
        if count > 1 {
            self.entries.insert(id, Loan::Shared(count - 1));
        } else if count == 1 {
            self.entries.remove(&id);
        }
        proof {
            assert forall|k: usize| #[trigger] self@.contains_key(k) implies match self@[k] {
                Loan::Shared(n) => n >= 1,
                Loan::Exclusive => true,
            } by {
                if k != id {
                    assert(old(self)@.contains_key(k));
                }
            }
        }
    }

    /// Gives an exclusive borrow back.
    pub fn release_mut(&mut self, guard: RefMut)
        requires
            old(self).wf(),
        ensures
            final(self).wf(),
            final(self)@ == after_release_mut(old(self)@, guard.view_data().buffer_id()),
    {
        let id = guard.data.id();
        let exclusive = match self.entries.get(&id) {
            Some(Loan::Exclusive) => true,
            _ => false,
        };
        if exclusive {
            self.entries.remove(&id);
        }
        proof {
            assert forall|k: usize| #[trigger] self@.contains_key(k) implies match self@[k] {
                Loan::Shared(n) => n >= 1,
                Loan::Exclusive => true,
            } by {
                if k != id {
                    assert(old(self)@.contains_key(k));
                }
            }
        }
    }

    /// Lends `data` out shared for the duration of one call of `f`, then gives
    /// the borrow back. Refused with `Mutating`, without calling `f`, when the
    /// buffer is lent out exclusively. The record is the same afterwards on
    /// every path.
    pub fn with_borrow<R, F: FnOnce(&Ref) -> R>(&mut self, data: BinaryData, f: F) -> (r: Result<
        R,
        LoanError,
    >)
        requires
            old(self).wf(),
            shared_count(old(self)@, data.buffer_id()) < usize::MAX,
            forall|g: &Ref| g.view_data() == data ==> #[trigger] f.requires((g,)),
        ensures
            final(self).wf(),
            final(self)@ == old(self)@,
            is_exclusive(old(self)@, data.buffer_id()) <==> r == Err::<R, LoanError>(
                LoanError::Mutating,
            ),
            r.is_ok() ==> exists|g: &Ref| g.view_data() == data && #[trigger] f.ensures((g,), r.unwrap()),
    {
        let guard = self.try_borrow(data)?;
        let value = f(&guard);
        let ghost lent = guard;
        self.release(guard);
        proof {
            lemma_release_undoes_borrow(old(self)@, data.buffer_id());
            assert(lent.view_data() == data && f.ensures((&lent,), value));
        }
        let result = Ok(value);
        assert(result.unwrap() == value);
        result
    }

    /// Lends `data` out exclusively for the duration of one call of `f`, then
    /// gives the borrow back. Refused with `Borrowing`, without calling `f`,
    /// when the buffer is lent out in any way. The record is the same
    /// afterwards on every path.
    pub fn with_borrow_mut<R, F: FnOnce(&RefMut) -> R>(&mut self, data: BinaryData, f: F) -> (r:
        Result<R, LoanError>)
        requires
            old(self).wf(),
            forall|g: &RefMut| g.view_data() == data ==> #[trigger] f.requires((g,)),
        ensures
            final(self).wf(),
            final(self)@ == old(self)@,
            old(self)@.contains_key(data.buffer_id()) <==> r == Err::<R, LoanError>(
                LoanError::Borrowing,
            ),
            r.is_ok() ==> exists|g: &RefMut| g.view_data() == data && #[trigger] f.ensures((g,), r.unwrap()),
    {
        let guard = self.try_borrow_mut(data)?;
        let value = f(&guard);
        let ghost lent = guard;
        self.release_mut(guard);
        proof {
            lemma_release_undoes_borrow(old(self)@, data.buffer_id());
            assert(lent.view_data() == data && f.ensures((&lent,), value));
        }
        let result = Ok(value);
        assert(result.unwrap() == value);
        result
    }
}

} // verus!
