//! CPU-side model of one growable device buffer.
//!
//! A `Buffer` mirrors what the renderer has written into a device buffer: the
//! bytes of the last fill, the capacity of the current allocation, and the
//! usage and memory class it was created with.  The device allocation itself
//! is owned by the caller; the caller asks `needs_realloc` before copying,
//! replaces the device allocation when it says so, and calls `fill` once the
//! copy has succeeded, so that this mirror never runs ahead of the device.

use vstd::prelude::*;

verus! {

/// What a device buffer is used for.
#[derive(Clone, Copy, PartialEq, Eq, Structural, Debug)]
pub enum BufferUsage {
    /// Per-frame camera data read by the vertex stage.
    Uniform,
    /// Per-vertex geometry.
    Vertex,
    /// Indices for indexed draws.
    Index,
    /// Per-instance records.
    Instance,
}

/// Which memory class the allocation was requested from.
#[derive(Clone, Copy, PartialEq, Eq, Structural, Debug)]
pub enum MemoryClass {
    /// Host-visible memory the CPU writes and the GPU reads.
    CpuToGpu,
    /// Device-local memory.
    GpuOnly,
}

/// One growable device buffer: capacity in bytes, the bytes of the last
/// successful fill, and the creation parameters.
///
/// The capacity never shrinks: a fill larger than the capacity replaces the
/// allocation with one sized exactly to the data, a smaller fill reuses the
/// allocation and overwrites only its prefix.  `reallocations` counts the
/// replacements, so a caller holding descriptors into the old allocation can
/// tell that they have gone stale.
pub struct Buffer {
    capacity: usize,
    content: Vec<u8>,
    usage: BufferUsage,
    memory_class: MemoryClass,
    reallocations: u64,
}

impl Buffer {
    /// The bytes written by the last fill.
    pub closed spec fn contents(self) -> Seq<u8> {
        self.content@
    }

    /// Capacity of the current allocation, in bytes.
    pub closed spec fn spec_capacity(self) -> int {
        self.capacity as int
    }

    pub closed spec fn spec_usage(self) -> BufferUsage {
        self.usage
    }

    pub closed spec fn spec_memory_class(self) -> MemoryClass {
        self.memory_class
    }

    /// How many times the allocation has been replaced by a growing fill.
    pub closed spec fn spec_reallocations(self) -> int {
        self.reallocations as int
    }

    /// The valid bytes always fit in the allocation.
    pub closed spec fn wf(self) -> bool {
        self.content@.len() <= self.capacity
    }

    /// Create the mirror of a fresh allocation of `capacity` bytes.
    /// Nothing has been written yet.
    pub fn new(capacity: usize, usage: BufferUsage, memory_class: MemoryClass) -> (b: Buffer)
        ensures
            b.wf(),
            b.spec_capacity() == capacity,
            b.contents() == Seq::<u8>::empty(),
            b.spec_usage() == usage,
            b.spec_memory_class() == memory_class,
            b.spec_reallocations() == 0,
    {
        Buffer {
            capacity,
            content: Vec::new(),
            usage,
            memory_class,
            reallocations: 0,
        }
    }

    /// Whether a fill with `data_len` bytes must replace the allocation.
    pub fn needs_realloc(&self, data_len: usize) -> (r: bool)
        ensures
            r == (data_len > self.spec_capacity()),
    {
        data_len > self.capacity
    }

    /// Record a successful fill with `data`.
    ///
    /// If the data outgrows the capacity, the allocation is replaced by one
    /// sized exactly to the data and `true` is returned; otherwise the
    /// allocation is reused.  Either way the valid contents afterwards are
    /// exactly `data`, and the capacity never shrinks.
    pub fn fill(&mut self, data: &Vec<u8>) -> (resized: bool)
        requires
            old(self).wf(),
            old(self).spec_reallocations() < u64::MAX,
        ensures
            final(self).wf(),
            resized == (data@.len() > old(self).spec_capacity()),
            final(self).spec_capacity() == if resized {
                data@.len() as int
            } else {
                old(self).spec_capacity()
            },
            old(self).spec_capacity() <= final(self).spec_capacity(),
            final(self).contents() == data@,
            final(self).spec_usage() == old(self).spec_usage(),
            final(self).spec_memory_class() == old(self).spec_memory_class(),
            final(self).spec_reallocations() == old(self).spec_reallocations() + if resized {
                1int
            } else {
                0int
            },
    {
        let resized = data.len() > self.capacity;
        if resized {
            self.capacity = data.len();
            self.reallocations = self.reallocations + 1;
        }
        self.content = copy_bytes(data);
        resized
    }

    /// Capacity of the current allocation, in bytes.
    pub fn capacity(&self) -> (r: usize)
        ensures
            r == self.spec_capacity(),
    {
        self.capacity
    }

    /// Number of valid bytes: the size of the last fill.
    pub fn len(&self) -> (r: usize)
        ensures
            r == self.contents().len(),
    {
        self.content.len()
    }

    /// The bytes of the last fill.
    pub fn bytes(&self) -> (r: &Vec<u8>)
        ensures
            r@ == self.contents(),
    {
        &self.content
    }

    pub fn usage(&self) -> (r: BufferUsage)
        ensures
            r == self.spec_usage(),
    {
        self.usage
    }

    pub fn memory_class(&self) -> (r: MemoryClass)
        ensures
            r == self.spec_memory_class(),
    {
        self.memory_class
    }

    /// How many times a growing fill has replaced the allocation.  A caller
    /// holding a descriptor into the allocation must rebind it whenever this
    /// count has moved.
    pub fn reallocation_count(&self) -> (r: u64)
        ensures
            r == self.spec_reallocations(),
    {
        self.reallocations
    }
}

fn copy_bytes(data: &Vec<u8>) -> (r: Vec<u8>)
    ensures
        r@ == data@,
{
    let mut r: Vec<u8> = Vec::new();
    let mut k: usize = 0;
    while k < data.len()
        invariant
            k <= data@.len(),
            r@ == data@.subrange(0, k as int),
        decreases data@.len() - k,
    {
        r.push(data[k]);
        proof {
            assert(data@.subrange(0, k as int + 1) =~= data@.subrange(0, k as int).push(
                data@[k as int],
            ));
        }
        k = k + 1;
    }
    proof {
        assert(r@ =~= data@);
    }
    r
}

} // verus!
