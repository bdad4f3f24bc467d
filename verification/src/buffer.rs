//! Device buffers, as the host names them.

use core::marker::PhantomData;
use vstd::prelude::*;

verus! {

/// Which buffer: one the caller already holds, or one that a queued
/// allocation makes.
#[derive(Debug, Clone, Copy, PartialEq, Eq, Structural)]
pub enum BufferId {
    /// The caller's own, by a number the caller gave it.
    Given(usize),
    /// The one made by the allocation at this place in the queue.
    Made(usize),
}

/// What one element of a buffer is.
#[derive(Debug, Clone, Copy, PartialEq, Eq, Structural)]
pub enum Elem {
    /// A 32-bit float.
    F32,
    /// A 16-bit float, as its bits.
    U16,
    /// A signed byte.
    I8,
    /// A 32-bit counter.
    U32,
}

/// The element type of a buffer of 32-bit floats.
#[derive(Debug, Clone, Copy, PartialEq, Eq)]
pub struct Fp32;

/// A 32-bit float by its bits, for a scalar that is passed on and never
/// computed with.
#[derive(Debug, Clone, Copy, PartialEq, Eq, Structural)]
pub struct FloatBits(pub u32);

/// A buffer of `len` elements of `T` on the device.
#[derive(Debug)]
pub struct CudaSlice<T> {
    /// Which buffer.
    pub id: BufferId,
    /// How many elements.
    pub len: usize,
    /// What they are.
    pub of: PhantomData<T>,
}

/// A place in a buffer, counted in the buffer's own elements.
#[derive(Debug, Clone, Copy, PartialEq, Eq, Structural)]
pub struct DevicePtr {
    /// Which buffer.
    pub id: BufferId,
    /// Elements from its start.
    pub offset: usize,
}

impl<T> CudaSlice<T> {
    /// The buffer `id` of `len` elements.
    pub open spec fn spec_new(id: BufferId, len: int) -> CudaSlice<T> {
        CudaSlice { id, len: len as usize, of: PhantomData }
    }

    /// A name for the buffer `id` of `len` elements.
    pub fn new(id: BufferId, len: usize) -> (s: CudaSlice<T>)
        ensures
            s == CudaSlice::<T>::spec_new(id, len as int),
            s.id == id,
            s.len == len,
    {
        CudaSlice { id, len, of: PhantomData }
    }

    /// How many elements.
    pub fn len(&self) -> (n: usize)
        ensures
            n == self.len,
    {
        self.len
    }

    /// A second name for the same buffer.
    pub fn handle(&self) -> (s: CudaSlice<T>)
        ensures
            s == *self,
    {
        CudaSlice { id: self.id, len: self.len, of: PhantomData }
    }

    /// The place `offset` elements in.
    pub open spec fn at(self, offset: int) -> DevicePtr {
        DevicePtr { id: self.id, offset: offset as usize }
    }
}

} // verus!
