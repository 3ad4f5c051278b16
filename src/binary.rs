use vstd::prelude::*;

verus! {

/// The trait for element types by which a buffer's binary data can be indexed.
pub trait BinaryViewType: Sized {
    /// Width of one element, in bytes.
    spec fn spec_width() -> nat;

    fn width() -> (r: usize)
        ensures
            r as nat == Self::spec_width(),
            r >= 1,
    ;
}

impl BinaryViewType for u8 {
    open spec fn spec_width() -> nat {
        1
    }

    fn width() -> (r: usize) {
        1
    }
}

impl BinaryViewType for i8 {
    open spec fn spec_width() -> nat {
        1
    }

    fn width() -> (r: usize) {
        1
    }
}

impl BinaryViewType for u16 {
    open spec fn spec_width() -> nat {
        2
    }

    fn width() -> (r: usize) {
        2
    }
}

impl BinaryViewType for i16 {
    open spec fn spec_width() -> nat {
        2
    }

    fn width() -> (r: usize) {
        2
    }
}

impl BinaryViewType for u32 {
    open spec fn spec_width() -> nat {
        4
    }

    fn width() -> (r: usize) {
        4
    }
}

impl BinaryViewType for i32 {
    open spec fn spec_width() -> nat {
        4
    }

    fn width() -> (r: usize) {
        4
    }
}

impl BinaryViewType for u64 {
    open spec fn spec_width() -> nat {
        8
    }

    fn width() -> (r: usize) {
        8
    }
}

impl BinaryViewType for i64 {
    open spec fn spec_width() -> nat {
        8
    }

    fn width() -> (r: usize) {
        8
    }
}

/// Number of whole elements of width `width` in `byte_len` bytes; a partial
/// trailing element is not counted.
pub open spec fn whole_elements(byte_len: nat, width: nat) -> nat
    recommends
        width >= 1,
{
    byte_len / width
}

/// A view of the backing store of one buffer: which buffer, and how many bytes
/// it held when the view was taken.
///
/// Views are only handed out by the store, so a view always names a buffer
/// that existed when it was made.
#[derive(Clone, Copy, Debug)]
pub struct BinaryData {
    buffer: usize,
    size: usize,
}

impl BinaryData {
    /// Identity of the buffer this view looks into.
    pub closed spec fn buffer_id(&self) -> usize {
        self.buffer
    }

    /// Byte length of the view.
    pub closed spec fn byte_len(&self) -> nat {
        self.size as nat
    }

    pub(crate) fn new(buffer: usize, size: usize) -> (r: Self)
        ensures
            r.buffer_id() == buffer,
            r.byte_len() == size,
    {
        BinaryData { buffer, size }
    }

    /// The identity of the underlying buffer.
    pub fn id(&self) -> (r: usize)
        ensures
            r == self.buffer_id(),
    {
        self.buffer
    }

    /// Produces the length of the buffer, in bytes.
    pub fn len(&self) -> (r: usize)
        ensures
            r as nat == self.byte_len(),
    {
        self.size
    }

    /// Returns `true` if the buffer is empty.
    pub fn is_empty(&self) -> (r: bool)
        ensures
            r == (self.byte_len() == 0),
    {
        self.size == 0
    }

    /// Number of elements of type `T` the view exposes: the byte length divided
    /// by the width of `T`, rounded down. An empty view exposes no elements.
    pub fn element_count<T: BinaryViewType>(&self) -> (r: usize)
        ensures
            r as nat == whole_elements(self.byte_len(), T::spec_width()),
            self.byte_len() == 0 ==> r == 0,
    {
        let w = T::width();
        if self.size == 0 {
            0
        } else {
            self.size / w
        }
    }
}

} // verus!
