use vstd::prelude::*;

use crate::binary::BinaryData;
use crate::ledger::{Ref, RefMut};

verus! {

/// Which of the two binary object kinds a buffer is.
#[derive(Clone, Copy, Debug, PartialEq, Eq, Structural)]
pub enum BinaryKind {
    /// A buffer with the host's higher-level "Buffer" semantics.
    Buffer,
    /// A plain array buffer.
    ArrayBuffer,
}

/// Why a handle could not be viewed as a buffer.
#[derive(Clone, Copy, Debug, PartialEq, Eq, Structural)]
pub enum ViewError {
    /// The handle does not refer to a live buffer.
    NotABuffer,
}

/// An opaque, copyable reference to a buffer of a [`Store`].
#[derive(Clone, Copy, Debug, PartialEq, Eq, Structural)]
pub struct Handle {
    id: usize,
}

impl Handle {
    pub closed spec fn spec_id(&self) -> usize {
        self.id
    }

    /// The buffer identity this handle refers to.
    pub fn id(&self) -> (r: usize)
        ensures
            r == self.spec_id(),
    {
        self.id
    }
}

/// What the store knows of one buffer: its bytes while it is alive (`None`
/// once an adopted allocation has been handed back), its kind, and whether its
/// memory was adopted from a native container.
pub struct Stored {
    pub bytes: Option<Seq<u8>>,
    pub kind: BinaryKind,
    pub external: bool,
}

struct Slot {
    bytes: Option<Vec<u8>>,
    kind: BinaryKind,
    external: bool,
}

impl Slot {
    spec fn model(&self) -> Stored {
        Stored {
            bytes: match self.bytes {
                Some(b) => Some(b@),
                None => None,
            },
            kind: self.kind,
            external: self.external,
        }
    }
}

/// Adopting a container makes its bytes, unchanged, the contents of a new live
/// buffer; the first release step for that buffer hands back exactly those
/// bytes, and a second one hands back nothing and changes nothing.
pub proof fn lemma_adopt_then_reclaim_once(s: Seq<Stored>, bytes: Seq<u8>, kind: BinaryKind)
    requires
        s.len() < usize::MAX,
    ensures
        ({
            let s1 = after_add(s, bytes, kind, true);
            let id = s.len() as usize;
            &&& s1[id as int].bytes == Some(bytes)
            &&& reclaimable(s1, id)
            &&& !reclaimable(after_reclaim(s1, id), id)
            &&& after_reclaim(after_reclaim(s1, id), id) == after_reclaim(s1, id)
        }),
{
}

/// A `u32` written at a position reads back unchanged from that position.
pub proof fn lemma_u32_reads_back(b: Seq<u8>, at: int, x: u32)
    requires
        0 <= at,
        at + 4 <= b.len(),
    ensures
        le_u32(put_le_u32(b, at, x), at) == x,
{
    let c = put_le_u32(b, at, x);
    assert(c[at] == x % 256);
    assert(c[at + 1] == (x / 256) % 256);
    assert(c[at + 2] == (x / 65536) % 256);
    assert(c[at + 3] == x / 16777216);
    assert(x % 256 + 256 * ((x / 256) % 256) + 65536 * ((x / 65536) % 256) + 16777216 * (x / 16777216) == x) by (nonlinear_arith);
}

/// The buffers of one execution context, indexed by buffer identity.
pub struct Store {
    slots: Vec<Slot>,
}

impl View for Store {
    type V = Seq<Stored>;

    closed spec fn view(&self) -> Seq<Stored> {
        self.slots@.map_values(|s: Slot| s.model())
    }
}

/// Whether `d` views a live buffer of `s` with the byte length that buffer has.
pub open spec fn views(s: Seq<Stored>, d: BinaryData) -> bool {
    &&& d.buffer_id() < s.len()
    &&& s[d.buffer_id() as int].bytes.is_some()
    &&& s[d.buffer_id() as int].bytes.unwrap().len() == d.byte_len()
}

/// The bytes of the live buffer that `d` views.
pub open spec fn viewed_bytes(s: Seq<Stored>, d: BinaryData) -> Seq<u8> {
    s[d.buffer_id() as int].bytes.unwrap()
}

/// The little-endian 32-bit value held in the four bytes of `b` from `at`.
pub open spec fn le_u32(b: Seq<u8>, at: int) -> int {
    b[at] + 256 * b[at + 1] + 65536 * b[at + 2] + 16777216 * b[at + 3]
}

/// `b` with the four bytes from `at` replaced by `x` in little-endian order.
pub open spec fn put_le_u32(b: Seq<u8>, at: int, x: u32) -> Seq<u8> {
    b.update(at, (x % 256) as u8).update(at + 1, ((x / 256) % 256) as u8).update(
        at + 2,
        ((x / 65536) % 256) as u8,
    ).update(at + 3, (x / 16777216) as u8)
}

/// The store after `bytes` become a new live buffer of kind `kind`.
pub open spec fn after_add(s: Seq<Stored>, bytes: Seq<u8>, kind: BinaryKind, external: bool) -> Seq<
    Stored,
> {
    s.push(Stored { bytes: Some(bytes), kind, external })
}

/// Whether the buffer `id` of `s` is an adopted allocation not yet handed back.
pub open spec fn reclaimable(s: Seq<Stored>, id: usize) -> bool {
    id < s.len() && s[id as int].external && s[id as int].bytes.is_some()
}

/// The store after the host reclaims buffer `id`: an adopted allocation that is
/// still alive is taken out; otherwise nothing changes.
pub open spec fn after_reclaim(s: Seq<Stored>, id: usize) -> Seq<Stored> {
    if reclaimable(s, id) {
        s.update(id as int, Stored { bytes: None, kind: s[id as int].kind, external: true })
    } else {
        s
    }
}

impl Store {
    /// A store with no buffers.
    pub fn new() -> (r: Self)
        ensures
            r@ == Seq::<Stored>::empty(),
    {
        Store { slots: Vec::new() }
    }

    /// Number of buffers ever created in this store.
    pub fn count(&self) -> (r: usize)
        ensures
            r == self@.len(),
    {
        self.slots.len()
    }

    fn add(&mut self, bytes: Vec<u8>, kind: BinaryKind, external: bool) -> (h: Handle)
        ensures
            final(self)@ == after_add(old(self)@, bytes@, kind, external),
            h.spec_id() == old(self)@.len(),
    {
        let id = self.slots.len();
        self.slots.push(Slot { bytes: Some(bytes), kind, external });
        proof {
            assert(self@ =~= after_add(old(self)@, bytes@, kind, external));
        }
        Handle { id }
    }

    /// Creates a zero-filled binary object of kind `kind` and `size` bytes.
    pub fn create(&mut self, kind: BinaryKind, size: usize) -> (h: Handle)
        ensures
            final(self)@ == after_add(old(self)@, Seq::new(size as nat, |i: int| 0u8), kind, false),
            h.spec_id() == old(self)@.len(),
    {
        let bytes: Vec<u8> = vec![0u8; size];
        proof {
            assert(bytes@ =~= Seq::new(size as nat, |i: int| 0u8));
        }
        self.add(bytes, kind, false)
    }

    /// Adopts a natively owned byte container as a binary object of kind
    /// `kind`. The same bytes, in the same order, become its contents; the
    /// container stays owned by the store until [`Store::reclaim`] hands it
    /// back.
    pub fn adopt(&mut self, kind: BinaryKind, data: Vec<u8>) -> (h: Handle)
        ensures
            final(self)@ == after_add(old(self)@, data@, kind, true),
            h.spec_id() == old(self)@.len(),
    {
        self.add(data, kind, true)
    }

    /// The kind of the buffer `h` refers to, if it refers to one.
    pub fn kind(&self, h: Handle) -> (r: Option<BinaryKind>)
        ensures
            r == (if h.spec_id() < self@.len() {
                Some(self@[h.spec_id() as int].kind)
            } else {
                None
            }),
    {
        if h.id < self.slots.len() {
            Some(self.slots[h.id].kind)
        } else {
            None
        }
    }

    /// A view of the buffer `h` refers to, with its current byte length.
    /// Refused with `NotABuffer` when `h` refers to no live buffer.
    pub fn data(&self, h: Handle) -> (r: Result<BinaryData, ViewError>)
        ensures
            match r {
                Ok(d) => {
                    &&& d.buffer_id() == h.spec_id()
                    &&& views(self@, d)
                },
                Err(e) => {
                    &&& e == ViewError::NotABuffer
                    &&& (h.spec_id() >= self@.len() || self@[h.spec_id() as int].bytes.is_none())
                },
            },
    {
        if h.id >= self.slots.len() {
            return Err(ViewError::NotABuffer);
        }
        match &self.slots[h.id].bytes {
            Some(b) => Ok(BinaryData::new(h.id, b.len())),
            None => Err(ViewError::NotABuffer),
        }
    }

    /// A view of the buffer `h` refers to, provided it is a live binary object
    /// of kind `kind`. Refused with `NotABuffer` otherwise.
    pub fn data_of_kind(&self, kind: BinaryKind, h: Handle) -> (r: Result<BinaryData, ViewError>)
        ensures
            match r {
                Ok(d) => {
                    &&& d.buffer_id() == h.spec_id()
                    &&& views(self@, d)
                    &&& self@[h.spec_id() as int].kind == kind
                },
                Err(e) => {
                    &&& e == ViewError::NotABuffer
                    &&& (h.spec_id() >= self@.len() || self@[h.spec_id() as int].bytes.is_none()
                        || self@[h.spec_id() as int].kind != kind)
                },
            },
    {
        if h.id < self.slots.len() && self.slots[h.id].kind != kind {
            return Err(ViewError::NotABuffer);
        }
        self.data(h)
    }

    /// Runs the release step for buffer `h`: an adopted container that is still
    /// alive is handed back whole, and the buffer is gone from then on. Any
    /// later call for the same buffer, and a call for a buffer that was not
    /// adopted, hands back nothing.
    pub fn reclaim(&mut self, h: Handle) -> (r: Option<Vec<u8>>)
        ensures
            final(self)@ == after_reclaim(old(self)@, h.spec_id()),
            match r {
                Some(v) => reclaimable(old(self)@, h.spec_id()) && v@ == old(self)@[h.spec_id() as int].bytes.unwrap(),
                None => !reclaimable(old(self)@, h.spec_id()),
            },
    {
        if h.id >= self.slots.len() || !self.slots[h.id].external {
            return None;
        }
        let mut taken: Option<Vec<u8>> = None;
        std::mem::swap(&mut self.slots[h.id].bytes, &mut taken);
        proof {
            assert(self@ =~= after_reclaim(old(self)@, h.spec_id()));
        }
        taken
    }
    /// Reads byte `i` of the buffer a shared guard lends.
    pub fn get_u8(&self, guard: &Ref, i: usize) -> (r: u8)
        requires
            views(self@, guard.view_data()),
            i < guard.view_data().byte_len(),
        ensures
            r == viewed_bytes(self@, guard.view_data())[i as int],
    {
        let id = guard.data().id();
        match &self.slots[id].bytes {
            Some(b) => b[i],
            None => 0,
        }
    }

    /// Reads element `i` of the buffer a shared guard lends, viewed as
    /// little-endian `u32` values.
    pub fn get_u32(&self, guard: &Ref, i: usize) -> (r: u32)
        requires
            views(self@, guard.view_data()),
            i < guard.view_data().byte_len() / 4,
        ensures
            r == le_u32(viewed_bytes(self@, guard.view_data()), 4 * i),
    {
        let id = guard.data().id();
        match &self.slots[id].bytes {
            Some(b) => {
                let n = b.len();
                proof {
                    assert(b@ == self@[id as int].bytes.unwrap());
                    assert(4 * i + 3 < n) by (nonlinear_arith)
                        requires
                            i < n / 4,
                    ;
                }
                let at = 4 * i;
                b[at] as u32 + 256 * (b[at + 1] as u32) + 65536 * (b[at + 2] as u32) + 16777216 * (
                b[at + 3] as u32)
            },
            None => 0,
        }
    }

    /// The bytes of the buffer a shared guard lends, without copying them.
    pub fn as_slice<'a>(&'a self, guard: &Ref) -> (r: &'a [u8])
        requires
            views(self@, guard.view_data()),
        ensures
            r@ == viewed_bytes(self@, guard.view_data()),
    {
        let id = guard.data().id();
        match &self.slots[id].bytes {
            Some(b) => b.as_slice(),
            None => &[],
        }
    }

    /// Writes byte `i` of the buffer an exclusive guard lends.
    pub fn set_u8(&mut self, guard: &RefMut, i: usize, x: u8)
        requires
            views(old(self)@, guard.view_data()),
            i < guard.view_data().byte_len(),
        ensures
            final(self)@ == old(self)@.update(
                guard.view_data().buffer_id() as int,
                Stored {
                    bytes: Some(viewed_bytes(old(self)@, guard.view_data()).update(i as int, x)),
                    ..old(self)@[guard.view_data().buffer_id() as int]
                },
            ),
    {
        let id = guard.data().id();
        let mut taken: Option<Vec<u8>> = None;
        std::mem::swap(&mut self.slots[id].bytes, &mut taken);
        match taken {
            Some(mut b) => {
                b.set(i, x);
                let mut back = Some(b);
                std::mem::swap(&mut self.slots[id].bytes, &mut back);
            },
            None => {},
        }
        proof {
            assert(self@ =~= old(self)@.update(
                guard.view_data().buffer_id() as int,
                Stored {
                    bytes: Some(viewed_bytes(old(self)@, guard.view_data()).update(i as int, x)),
                    ..old(self)@[guard.view_data().buffer_id() as int]
                },
            ));
        }
    }

    /// Writes element `i` of the buffer an exclusive guard lends, viewed as
    /// little-endian `u32` values.
    pub fn set_u32(&mut self, guard: &RefMut, i: usize, x: u32)
        requires
            views(old(self)@, guard.view_data()),
            i < guard.view_data().byte_len() / 4,
        ensures
            final(self)@ == old(self)@.update(
                guard.view_data().buffer_id() as int,
                Stored {
                    bytes: Some(put_le_u32(viewed_bytes(old(self)@, guard.view_data()), 4 * i, x)),
                    ..old(self)@[guard.view_data().buffer_id() as int]
                },
            ),
    {
        let id = guard.data().id();
        let mut taken: Option<Vec<u8>> = None;
        std::mem::swap(&mut self.slots[id].bytes, &mut taken);
        match taken {
            Some(mut b) => {
                let n = b.len();
                proof {
                    assert(b@ == old(self)@[id as int].bytes.unwrap());
                    assert(4 * i + 3 < n) by (nonlinear_arith)
                        requires
                            i < n / 4,
                    ;
                }
                let at = 4 * i;
                b.set(at, (x % 256) as u8);
                b.set(at + 1, ((x / 256) % 256) as u8);
                b.set(at + 2, ((x / 65536) % 256) as u8);
                b.set(at + 3, (x / 16777216) as u8);
                let mut back = Some(b);
                std::mem::swap(&mut self.slots[id].bytes, &mut back);
            },
            None => {},
        }
        proof {
            assert(self@ =~= old(self)@.update(
                guard.view_data().buffer_id() as int,
                Stored {
                    bytes: Some(put_le_u32(viewed_bytes(old(self)@, guard.view_data()), 4 * i, x)),
                    ..old(self)@[guard.view_data().buffer_id() as int]
                },
            ));
        }
    }
}

} // verus!
