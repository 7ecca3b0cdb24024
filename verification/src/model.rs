//! Handle-indexed, visibility-partitioned object registry.
//!
//! A `Model` owns one piece of geometry (vertex and index data shared by all
//! of its instances) and a registry of instance records.  Each record is
//! reached through an opaque handle that stays valid however the records are
//! rearranged; handles count up from zero and are never reused.  The records
//! sit in one contiguous sequence, partitioned by a single cursor: slots below
//! `first_invisible` hold the instances eligible to be drawn, slots at or
//! above it hold the rest.  Every mutation keeps the partition by swapping a
//! boundary element, never by shifting a range.

use vstd::prelude::*;

verus! {

/// The caller-checkable error: the handle names no live instance.
#[derive(Clone, Copy, PartialEq, Eq, Structural, Debug)]
pub struct InvalidHandle;

/// A registry of instance records over one piece of geometry.
///
/// `V` is the per-vertex payload, `I` the per-instance record.
pub struct Model<V, I> {
    vertex_data: Vec<V>,
    index_data: Vec<u32>,
    handles: Vec<usize>,
    slot_of: Vec<Option<usize>>,
    instances: Vec<I>,
    first_invisible: usize,
}

impl<V, I> Model<V, I> {
    /// Number of live instances.
    pub closed spec fn spec_len(self) -> nat {
        self.instances@.len()
    }

    /// The partition cursor: slots below it are visible.
    pub closed spec fn spec_first_invisible(self) -> int {
        self.first_invisible as int
    }

    /// The handle the next insertion will return.  Handles are never reused,
    /// so this only grows.
    pub closed spec fn spec_next_handle(self) -> int {
        self.slot_of@.len() as int
    }

    /// Whether `h` names a live instance.
    pub closed spec fn is_live(self, h: usize) -> bool {
        (h as int) < self.slot_of@.len() && self.slot_of@[h as int] is Some
    }

    /// The physical slot a live handle's record sits in.
    pub closed spec fn slot(self, h: usize) -> int
        recommends
            self.is_live(h),
    {
        self.slot_of@[h as int].unwrap() as int
    }

    /// Whether `h` is live and currently eligible to be drawn.
    pub closed spec fn spec_visible(self, h: usize) -> bool {
        self.is_live(h) && self.slot(h) < self.spec_first_invisible()
    }

    /// The record a live handle names.
    pub closed spec fn record_of(self, h: usize) -> I
        recommends
            self.is_live(h),
    {
        self.instances@[self.slot(h)]
    }

    /// The handle stored in physical slot `i`.
    pub closed spec fn handle_at(self, i: int) -> usize
        recommends
            0 <= i < self.spec_len(),
    {
        self.handles@[i]
    }

    pub closed spec fn spec_vertex_data(self) -> Seq<V> {
        self.vertex_data@
    }

    pub closed spec fn spec_index_data(self) -> Seq<u32> {
        self.index_data@
    }

    /// All live handles.
    pub open spec fn live_handles(self) -> Set<usize> {
        Set::new(|h: usize| self.is_live(h))
    }

    /// The live handles eligible to be drawn.
    pub open spec fn visible_handles(self) -> Set<usize> {
        Set::new(|h: usize| self.spec_visible(h))
    }

    /// The live handles not eligible to be drawn.
    pub open spec fn invisible_handles(self) -> Set<usize> {
        Set::new(|h: usize| self.is_live(h) && !self.spec_visible(h))
    }

    /// The handles stored in physical slots `lo..hi`.
    pub open spec fn handles_in_slots(self, lo: int, hi: int) -> Set<usize> {
        Set::new(|h: usize| exists|i: int| lo <= i < hi && self.handle_at(i) == h)
    }

    /// Structural invariant: the instance and handle sequences run in step,
    /// the cursor stays in range, and the index map is a bijection between
    /// the live handles and the physical slots.
    pub closed spec fn wf(self) -> bool {
        &&& self.handles@.len() == self.instances@.len()
        &&& self.first_invisible as int <= self.instances@.len()
        &&& (forall|i: int|
            0 <= i < self.handles@.len() ==> (#[trigger] self.handles@[i] as int)
                < self.slot_of@.len() && self.slot_of@[self.handles@[i] as int] is Some && (
            self.slot_of@[self.handles@[i] as int].unwrap() as int) == i)
        &&& (forall|h: int|
            0 <= h < self.slot_of@.len() && (#[trigger] self.slot_of@[h]) is Some ==> (
            self.slot_of@[h].unwrap() as int) < self.handles@.len()
                && self.handles@[self.slot_of@[h].unwrap() as int] == h)
    }

    /// An empty registry over the given geometry.
    pub fn new(vertex_data: Vec<V>, index_data: Vec<u32>) -> (m: Model<V, I>)
        ensures
            m.wf(),
            m.spec_len() == 0,
            m.spec_first_invisible() == 0,
            m.spec_next_handle() == 0,
            forall|h: usize| !m.is_live(h),
            m.spec_vertex_data() == vertex_data@,
            m.spec_index_data() == index_data@,
    {
        Model {
            vertex_data,
            index_data,
            handles: Vec::new(),
            slot_of: Vec::new(),
            instances: Vec::new(),
            first_invisible: 0,
        }
    }

    /// Number of live instances.
    pub fn len(&self) -> (r: usize)
        ensures
            r == self.spec_len(),
    {
        self.instances.len()
    }

    /// The partition cursor; equivalently, the number of visible instances.
    pub fn first_invisible(&self) -> (r: usize)
        ensures
            r == self.spec_first_invisible(),
    {
        self.first_invisible
    }

    /// The handle the next insertion will return.
    pub fn next_handle(&self) -> (r: usize)
        ensures
            r == self.spec_next_handle(),
    {
        self.slot_of.len()
    }

    /// The geometry shared by all instances.
    pub fn vertex_data(&self) -> (r: &Vec<V>)
        ensures
            r@ == self.spec_vertex_data(),
    {
        &self.vertex_data
    }

    /// The index data shared by all instances.
    pub fn index_data(&self) -> (r: &Vec<u32>)
        ensures
            r@ == self.spec_index_data(),
    {
        &self.index_data
    }

    /// The instance records in physical slot order.  The visible records are
    /// exactly the prefix of length `first_invisible`; a consumer mirroring
    /// them into a device buffer draws only that prefix.
    pub fn records(&self) -> (r: &Vec<I>)
        requires
            self.wf(),
        ensures
            r@.len() == self.spec_len(),
            forall|i: int|
                0 <= i < self.spec_len() ==> #[trigger] r@[i] == self.record_of(self.handle_at(i)),
    {
        proof {
            assert forall|i: int| 0 <= i < self.spec_len() implies #[trigger] self.instances@[i]
                == self.record_of(self.handle_at(i)) by {
                assert((self.handles@[i] as int) < self.slot_of@.len());
                assert((self.slot_of@[self.handles@[i] as int].unwrap() as int) == i);
            }
        }
        &self.instances
    }

    /// Append a record as invisible and hand back its fresh handle.
    pub fn insert(&mut self, record: I) -> (h: usize)
        requires
            old(self).wf(),
        ensures
            final(self).wf(),
            h as int == old(self).spec_next_handle(),
            final(self).spec_next_handle() == old(self).spec_next_handle() + 1,
            final(self).is_live(h),
            !final(self).spec_visible(h),
            final(self).record_of(h) == record,
            final(self).spec_len() == old(self).spec_len() + 1,
            final(self).spec_first_invisible() == old(self).spec_first_invisible(),
            forall|g: usize| g != h ==> final(self).is_live(g) == old(self).is_live(g),
            forall|g: usize|
                g != h && old(self).is_live(g) ==> final(self).spec_visible(g) == old(
                    self,
                ).spec_visible(g) && final(self).record_of(g) == old(self).record_of(g),
            final(self).spec_vertex_data() == old(self).spec_vertex_data(),
            final(self).spec_index_data() == old(self).spec_index_data(),
    {
        let h = self.slot_of.len();
        let idx = self.instances.len();
        self.instances.push(record);
        self.handles.push(h);
        self.slot_of.push(Some(idx));
        h
    }

    /// Look a record up by handle; yields nothing for an unknown handle.
    pub fn get(&self, h: usize) -> (r: Option<&I>)
        requires
            self.wf(),
        ensures
            match r {
                Some(rec) => self.is_live(h) && *rec == self.record_of(h),
                None => !self.is_live(h),
            },
    {
        if h < self.slot_of.len() {
            match self.slot_of[h] {
                Some(idx) => Some(&self.instances[idx]),
                None => None,
            }
        } else {
            None
        }
    }

    /// Whether the instance named by `h` is eligible to be drawn; the unknown
    /// handle is reported, never aborted on.
    pub fn is_visible(&self, h: usize) -> (r: Result<bool, InvalidHandle>)
        requires
            self.wf(),
        ensures
            r is Ok <==> self.is_live(h),
            r is Ok ==> r.unwrap() == self.spec_visible(h),
    {
        if h < self.slot_of.len() {
            match self.slot_of[h] {
                Some(idx) => Ok(idx < self.first_invisible),
                None => Err(InvalidHandle),
            }
        } else {
            Err(InvalidHandle)
        }
    }

    /// Replace the record a live handle names; the unknown handle is
    /// reported, never aborted on.
    pub fn update_record(&mut self, h: usize, record: I) -> (r: Result<(), InvalidHandle>)
        requires
            old(self).wf(),
        ensures
            final(self).wf(),
            r is Ok <==> old(self).is_live(h),
            r is Err ==> *final(self) == *old(self),
            r is Ok ==> {
                &&& final(self).record_of(h) == record
                &&& forall|g: usize| final(self).is_live(g) == old(self).is_live(g)
                &&& forall|g: usize| final(self).spec_visible(g) == old(self).spec_visible(g)
                &&& forall|g: usize|
                    g != h && old(self).is_live(g) ==> final(self).record_of(g) == old(
                        self,
                    ).record_of(g)
                &&& final(self).spec_len() == old(self).spec_len()
                &&& final(self).spec_first_invisible() == old(self).spec_first_invisible()
                &&& final(self).spec_next_handle() == old(self).spec_next_handle()
                &&& final(self).spec_vertex_data() == old(self).spec_vertex_data()
                &&& final(self).spec_index_data() == old(self).spec_index_data()
            },
    {
        if h >= self.slot_of.len() {
            return Err(InvalidHandle);
        }
        let idx = match self.slot_of[h] {
            Some(idx) => idx,
            None => { return Err(InvalidHandle) },
        };
        self.instances[idx] = record;
        proof {
            assert forall|g: usize| old(self).is_live(g) && g != h implies self.record_of(g) == old(
                self,
            ).record_of(g) by {
                let s = old(self).slot(g);
                assert(old(self).handles@[s] == g);
                assert(old(self).handles@[idx as int] == h);
                assert(s != idx as int);
            }
        }
        Ok(())
    }
}

impl<V, I: Copy> Model<V, I> {
    /// Exchange the physical slots of the records at `i` and `j`, keeping the
    /// index map in step.  Which handles are live, which records they name
    /// and the partition cursor are untouched; only the two slots trade
    /// occupants.
    fn swap_by_index(&mut self, i: usize, j: usize)
        requires
            old(self).wf(),
            i < old(self).spec_len(),
            j < old(self).spec_len(),
        ensures
            final(self).wf(),
            final(self).spec_len() == old(self).spec_len(),
            final(self).spec_first_invisible() == old(self).spec_first_invisible(),
            final(self).spec_next_handle() == old(self).spec_next_handle(),
            final(self).spec_vertex_data() == old(self).spec_vertex_data(),
            final(self).spec_index_data() == old(self).spec_index_data(),
            forall|g: usize| final(self).is_live(g) == old(self).is_live(g),
            forall|g: usize|
                old(self).is_live(g) ==> final(self).record_of(g) == old(self).record_of(g),
            forall|g: usize|
                old(self).is_live(g) ==> final(self).slot(g) == (if old(self).slot(g) == i {
                    j as int
                } else if old(self).slot(g) == j {
                    i as int
                } else {
                    old(self).slot(g)
                }),
            final(self).handle_at(i as int) == old(self).handle_at(j as int),
            final(self).handle_at(j as int) == old(self).handle_at(i as int),
            forall|k: int|
                0 <= k < old(self).spec_len() && k != i && k != j ==> final(self).handle_at(k)
                    == old(self).handle_at(k),
    {
        let ghost o = *old(self);
        let hi = self.handles[i];
        let hj = self.handles[j];
        let ri = self.instances[i];
        let rj = self.instances[j];
        self.instances[i] = rj;
        self.instances[j] = ri;
        self.handles[i] = hj;
        self.handles[j] = hi;
        self.slot_of[hi] = Some(j);
        self.slot_of[hj] = Some(i);
        proof {
            self.lemma_swap_by_index_post(o, i, j);
        }
    }

    proof fn lemma_swap_by_index_post(self, o: Model<V, I>, i: usize, j: usize)
        requires
            o.wf(),
            i < o.spec_len(),
            j < o.spec_len(),
            self.handles@ == o.handles@.update(i as int, o.handles@[j as int]).update(
                j as int,
                o.handles@[i as int],
            ),
            self.instances@ == o.instances@.update(i as int, o.instances@[j as int]).update(
                j as int,
                o.instances@[i as int],
            ),
            self.slot_of@ == o.slot_of@.update(o.handles@[i as int] as int, Some(j)).update(
                o.handles@[j as int] as int,
                Some(i),
            ),
            self.first_invisible == o.first_invisible,
            self.vertex_data@ == o.vertex_data@,
            self.index_data@ == o.index_data@,
        ensures
            self.wf(),
            forall|g: usize| self.is_live(g) == o.is_live(g),
            forall|g: usize| o.is_live(g) ==> self.record_of(g) == o.record_of(g),
            forall|g: usize|
                o.is_live(g) ==> self.slot(g) == (if o.slot(g) == i {
                    j as int
                } else if o.slot(g) == j {
                    i as int
                } else {
                    o.slot(g)
                }),
    {
        let hi = o.handles@[i as int];
        let hj = o.handles@[j as int];
        assert(o.slot_of@[hi as int] == Some(i));
        assert(o.slot_of@[hj as int] == Some(j));
        assert(hi == hj ==> i == j);
        // The index map stays a bijection.
        assert forall|k: int|
            0 <= k < self.handles@.len() implies ((#[trigger] self.handles@[k] as int)
            < self.slot_of@.len() && self.slot_of@[self.handles@[k] as int] is Some && (
        self.slot_of@[self.handles@[k] as int].unwrap() as int) == k) by {
            if k == j as int {
                assert(self.handles@[k] == hi);
            } else if k == i as int {
                assert(self.handles@[k] == hj);
            } else {
                let h = o.handles@[k];
                assert((o.slot_of@[h as int].unwrap() as int) == k);
                assert(h != hi && h != hj);
                assert(self.slot_of@[h as int] == o.slot_of@[h as int]);
            }
        }
        assert forall|h: int|
            0 <= h < self.slot_of@.len() && (#[trigger] self.slot_of@[h]) is Some implies ((
        self.slot_of@[h].unwrap() as int) < self.handles@.len()
            && self.handles@[self.slot_of@[h].unwrap() as int] == h) by {
            if h == hj as int {
                assert(self.slot_of@[h] == Some(i));
            } else if h == hi as int {
                assert(self.slot_of@[h] == Some(j));
            } else {
                assert(self.slot_of@[h] == o.slot_of@[h]);
                let k = o.slot_of@[h].unwrap();
                assert(o.handles@[k as int] == h);
                assert(k as int != i && k as int != j);
            }
        }
        assert forall|g: usize| o.is_live(g) implies self.slot(g) == (if o.slot(g) == i {
            j as int
        } else if o.slot(g) == j {
            i as int
        } else {
            o.slot(g)
        }) && self.record_of(g) == o.record_of(g) by {
            if g == hi {
                assert(self.slot_of@[g as int] == if hi == hj {
                    Some(i)
                } else {
                    Some(j)
                });
            } else if g == hj {
                assert(self.slot_of@[g as int] == Some(i));
            } else {
                assert(self.slot_of@[g as int] == o.slot_of@[g as int]);
                let k = o.slot_of@[g as int].unwrap();
                assert(o.handles@[k as int] == g);
                assert(k as int != i && k as int != j);
            }
        }
    }

    /// Promote the instance named by `h` into the visible prefix: a no-op if
    /// it is already visible, otherwise one boundary swap and a cursor
    /// increment.  Every other handle keeps its record and its visibility.
    pub fn make_visible(&mut self, h: usize) -> (r: Result<(), InvalidHandle>)
        requires
            old(self).wf(),
        ensures
            final(self).wf(),
            r is Ok <==> old(self).is_live(h),
            r is Err ==> *final(self) == *old(self),
            r is Ok ==> {
                &&& final(self).spec_visible(h)
                &&& forall|g: usize| final(self).is_live(g) == old(self).is_live(g)
                &&& forall|g: usize|
                    old(self).is_live(g) ==> final(self).record_of(g) == old(self).record_of(g)
                &&& forall|g: usize|
                    g != h && old(self).is_live(g) ==> final(self).spec_visible(g) == old(
                        self,
                    ).spec_visible(g)
                &&& final(self).spec_first_invisible() == old(self).spec_first_invisible() + (
                if old(self).spec_visible(h) {
                    0int
                } else {
                    1int
                })
                &&& final(self).spec_len() == old(self).spec_len()
                &&& final(self).spec_next_handle() == old(self).spec_next_handle()
                &&& final(self).spec_vertex_data() == old(self).spec_vertex_data()
                &&& final(self).spec_index_data() == old(self).spec_index_data()
            },
    {
        if h >= self.slot_of.len() {
            return Err(InvalidHandle);
        }
        let idx = match self.slot_of[h] {
            Some(idx) => idx,
            None => { return Err(InvalidHandle) },
        };
        if idx < self.first_invisible {
            return Ok(());
        }
        let fi = self.first_invisible;
        let n = self.instances.len();
        proof {
            assert(self.is_live(h));
            assert((self.slot_of@[h as int].unwrap() as int) < self.handles@.len());
            assert(idx < n);
            assert(fi < n);
        }
        self.swap_by_index(idx, fi);
        self.first_invisible = fi + 1;
        proof {
            assert forall|g: usize| g != h && old(self).is_live(g) implies self.spec_visible(g)
                == old(self).spec_visible(g) by {
                let s = old(self).slot(g);
                assert(old(self).handles@[s] == g);
                assert(old(self).handles@[idx as int] == h);
                assert(s != idx as int);
            }
        }
        Ok(())
    }

    /// Demote the instance named by `h` out of the visible prefix: a no-op if
    /// it is already invisible, otherwise one boundary swap and a cursor
    /// decrement.  Every other handle keeps its record and its visibility.
    pub fn make_invisible(&mut self, h: usize) -> (r: Result<(), InvalidHandle>)
        requires
            old(self).wf(),
        ensures
            final(self).wf(),
            r is Ok <==> old(self).is_live(h),
            r is Err ==> *final(self) == *old(self),
            r is Ok ==> {
                &&& final(self).is_live(h) && !final(self).spec_visible(h)
                &&& forall|g: usize| final(self).is_live(g) == old(self).is_live(g)
                &&& forall|g: usize|
                    old(self).is_live(g) ==> final(self).record_of(g) == old(self).record_of(g)
                &&& forall|g: usize|
                    g != h && old(self).is_live(g) ==> final(self).spec_visible(g) == old(
                        self,
                    ).spec_visible(g)
                &&& final(self).spec_first_invisible() == old(self).spec_first_invisible() - (
                if old(self).spec_visible(h) {
                    1int
                } else {
                    0int
                })
                &&& final(self).spec_len() == old(self).spec_len()
                &&& final(self).spec_next_handle() == old(self).spec_next_handle()
                &&& final(self).spec_vertex_data() == old(self).spec_vertex_data()
                &&& final(self).spec_index_data() == old(self).spec_index_data()
            },
    {
        if h >= self.slot_of.len() {
            return Err(InvalidHandle);
        }
        let idx = match self.slot_of[h] {
            Some(idx) => idx,
            None => { return Err(InvalidHandle) },
        };
        if idx >= self.first_invisible {
            return Ok(());
        }
        let boundary = self.first_invisible - 1;
        proof {
            assert(self.is_live(h));
            assert((self.slot_of@[h as int].unwrap() as int) < self.handles@.len());
        }
        self.swap_by_index(idx, boundary);
        self.first_invisible = boundary;
        proof {
            assert forall|g: usize| g != h && old(self).is_live(g) implies self.spec_visible(g)
                == old(self).spec_visible(g) by {
                let s = old(self).slot(g);
                assert(old(self).handles@[s] == g);
                assert(old(self).handles@[idx as int] == h);
                assert(s != idx as int);
            }
        }
        Ok(())
    }

    /// Insert a record and immediately mark it visible.
    pub fn insert_visibly(&mut self, record: I) -> (h: usize)
        requires
            old(self).wf(),
        ensures
            final(self).wf(),
            h as int == old(self).spec_next_handle(),
            final(self).spec_next_handle() == old(self).spec_next_handle() + 1,
            final(self).is_live(h),
            final(self).spec_visible(h),
            final(self).record_of(h) == record,
            final(self).spec_len() == old(self).spec_len() + 1,
            final(self).spec_first_invisible() == old(self).spec_first_invisible() + 1,
            forall|g: usize| g != h ==> final(self).is_live(g) == old(self).is_live(g),
            forall|g: usize|
                g != h && old(self).is_live(g) ==> final(self).spec_visible(g) == old(
                    self,
                ).spec_visible(g) && final(self).record_of(g) == old(self).record_of(g),
            final(self).spec_vertex_data() == old(self).spec_vertex_data(),
            final(self).spec_index_data() == old(self).spec_index_data(),
    {
        let h = self.insert(record);
        let ghost mid = *self;
        let r = self.make_visible(h);
        proof {
            assert(r is Ok);
            assert forall|g: usize|
                g != h && old(self).is_live(g) implies self.spec_visible(g) == old(
                self,
            ).spec_visible(g) && self.record_of(g) == old(self).record_of(g) by {
                assert(mid.is_live(g));
                assert(mid.spec_visible(g) == old(self).spec_visible(g));
                assert(mid.record_of(g) == old(self).record_of(g));
            }
        }
        h
    }

    /// Remove the instance named by `h` and hand its record back: demote it to
    /// invisible if needed, swap it to the end, pop it, and retire the handle
    /// for good.  No other handle's record or visibility is touched.  The
    /// unknown handle is reported, never aborted on.
    pub fn remove(&mut self, h: usize) -> (r: Result<I, InvalidHandle>)
        requires
            old(self).wf(),
        ensures
            final(self).wf(),
            r is Ok <==> old(self).is_live(h),
            r is Err ==> *final(self) == *old(self),
            r is Ok ==> {
                &&& r.unwrap() == old(self).record_of(h)
                &&& !final(self).is_live(h)
                &&& forall|g: usize| g != h ==> final(self).is_live(g) == old(self).is_live(g)
                &&& forall|g: usize|
                    g != h && old(self).is_live(g) ==> final(self).spec_visible(g) == old(
                        self,
                    ).spec_visible(g) && final(self).record_of(g) == old(self).record_of(g)
                &&& final(self).spec_len() == old(self).spec_len() - 1
                &&& final(self).spec_next_handle() == old(self).spec_next_handle()
                &&& final(self).spec_first_invisible() == old(self).spec_first_invisible() - (
                if old(self).spec_visible(h) {
                    1int
                } else {
                    0int
                })
                &&& final(self).spec_vertex_data() == old(self).spec_vertex_data()
                &&& final(self).spec_index_data() == old(self).spec_index_data()
            },
    {
        if h >= self.slot_of.len() {
            return Err(InvalidHandle);
        }
        match self.slot_of[h] {
            Some(_) => {},
            None => { return Err(InvalidHandle) },
        }
        let demoted = self.make_invisible(h);
        proof {
            assert(demoted is Ok);
        }
        let ghost m1 = *self;
        let idx = match self.slot_of[h] {
            Some(idx) => idx,
            None => { return Err(InvalidHandle) },
        };
        let n = self.instances.len();
        proof {
            assert(m1.is_live(h));
            assert((m1.slot_of@[h as int].unwrap() as int) < m1.handles@.len());
            assert(idx < n);
        }
        let last = n - 1;
        self.swap_by_index(idx, last);
        let ghost m2 = *self;
        let rec = match self.instances.pop() {
            Some(rec) => rec,
            None => { return Err(InvalidHandle) },
        };
        self.handles.pop();
        self.slot_of[h] = None;
        proof {
            assert(m2.handles@[last as int] == h) by {
                assert(m2.slot_of@[h as int] == Some(last));
            }
            // The bijection survives dropping the final slot and retiring `h`.
            assert forall|k: int|
                0 <= k < self.handles@.len() implies ((#[trigger] self.handles@[k] as int)
                < self.slot_of@.len() && self.slot_of@[self.handles@[k] as int] is Some && (
            self.slot_of@[self.handles@[k] as int].unwrap() as int) == k) by {
                let g = m2.handles@[k];
                assert((m2.slot_of@[g as int].unwrap() as int) == k);
                assert(g != h);
                assert(self.slot_of@[g as int] == m2.slot_of@[g as int]);
            }
            assert forall|hh: int|
                0 <= hh < self.slot_of@.len() && (#[trigger] self.slot_of@[hh]) is Some implies ((
            self.slot_of@[hh].unwrap() as int) < self.handles@.len()
                && self.handles@[self.slot_of@[hh].unwrap() as int] == hh) by {
                assert(hh != h as int);
                assert(self.slot_of@[hh] == m2.slot_of@[hh]);
                let k = m2.slot_of@[hh].unwrap();
                assert(m2.handles@[k as int] == hh);
                assert(k as int != last as int);
            }
            assert(self.wf());
            // Every other handle keeps its slot, record and visibility.
            assert forall|g: usize|
                g != h && old(self).is_live(g) implies self.spec_visible(g) == old(
                self,
            ).spec_visible(g) && self.record_of(g) == old(self).record_of(g) by {
                assert(m1.is_live(g));
                let s = m1.slot(g);
                assert(m1.handles@[s] == g);
                assert(m1.handles@[idx as int] == h);
                assert(s != idx as int);
                if s == last as int {
                    assert(m2.slot(g) == idx as int);
                } else {
                    assert(m2.slot(g) == s);
                }
                assert(self.slot_of@[g as int] == m2.slot_of@[g as int]);
                assert(self.slot(g) == m2.slot(g));
                assert((m2.slot(g)) < last as int);
                assert(self.record_of(g) == m2.record_of(g));
                assert(m2.record_of(g) == m1.record_of(g));
                assert(self.spec_visible(g) == m2.spec_visible(g));
            }
        }
        Ok(rec)
    }

    /// Exchange the physical slots of the two instances named by the handles.
    /// Records follow their handles, so each handle still names its own
    /// record; what the two handles trade is their place in the partition,
    /// and with it their visibility.  Every other handle is untouched.
    pub fn swap_by_handle(&mut self, h1: usize, h2: usize) -> (r: Result<(), InvalidHandle>)
        requires
            old(self).wf(),
        ensures
            final(self).wf(),
            r is Ok <==> (old(self).is_live(h1) && old(self).is_live(h2)),
            r is Err ==> *final(self) == *old(self),
            r is Ok ==> {
                &&& forall|g: usize| final(self).is_live(g) == old(self).is_live(g)
                &&& forall|g: usize|
                    old(self).is_live(g) ==> final(self).record_of(g) == old(self).record_of(g)
                &&& final(self).slot(h1) == old(self).slot(h2)
                &&& final(self).slot(h2) == old(self).slot(h1)
                &&& final(self).spec_visible(h1) == old(self).spec_visible(h2)
                &&& final(self).spec_visible(h2) == old(self).spec_visible(h1)
                &&& forall|g: usize|
                    g != h1 && g != h2 && old(self).is_live(g) ==> final(self).slot(g) == old(
                        self,
                    ).slot(g) && final(self).spec_visible(g) == old(self).spec_visible(g)
                &&& final(self).spec_len() == old(self).spec_len()
                &&& final(self).spec_first_invisible() == old(self).spec_first_invisible()
                &&& final(self).spec_next_handle() == old(self).spec_next_handle()
                &&& final(self).spec_vertex_data() == old(self).spec_vertex_data()
                &&& final(self).spec_index_data() == old(self).spec_index_data()
            },
    {
        if h1 >= self.slot_of.len() || h2 >= self.slot_of.len() {
            return Err(InvalidHandle);
        }
        let i1 = match self.slot_of[h1] {
            Some(i) => i,
            None => { return Err(InvalidHandle) },
        };
        let i2 = match self.slot_of[h2] {
            Some(i) => i,
            None => { return Err(InvalidHandle) },
        };
        let n = self.instances.len();
        proof {
            assert(self.is_live(h1) && self.is_live(h2));
            assert((self.slot_of@[h1 as int].unwrap() as int) < self.handles@.len());
            assert((self.slot_of@[h2 as int].unwrap() as int) < self.handles@.len());
            assert(i1 < n && i2 < n);
        }
        self.swap_by_index(i1, i2);
        proof {
            assert forall|g: usize|
                g != h1 && g != h2 && old(self).is_live(g) implies self.slot(g) == old(self).slot(
                g,
            ) && self.spec_visible(g) == old(self).spec_visible(g) by {
                let s = old(self).slot(g);
                assert(old(self).handles@[s] == g);
                assert(old(self).handles@[i1 as int] == h1);
                assert(old(self).handles@[i2 as int] == h2);
                assert(s != i1 as int && s != i2 as int);
            }
        }
        Ok(())
    }
}

/// Partition law: in a well-formed registry the handles stored in the slots
/// below the cursor are exactly the visible handles, the handles stored at or
/// above it are exactly the invisible ones, and the two sides split the live
/// handles without overlap.
pub proof fn lemma_partition<V, I>(m: Model<V, I>)
    requires
        m.wf(),
    ensures
        m.handles_in_slots(0, m.spec_first_invisible()) =~= m.visible_handles(),
        m.handles_in_slots(m.spec_first_invisible(), m.spec_len() as int) =~= m.invisible_handles(),
        m.visible_handles().disjoint(m.invisible_handles()),
        m.visible_handles().union(m.invisible_handles()) =~= m.live_handles(),
{
    lemma_index_map_bijection(m);
    assert forall|h: usize|
        m.handles_in_slots(0, m.spec_first_invisible()).contains(h)
            <==> m.visible_handles().contains(h) by {
        if m.spec_visible(h) {
            assert(m.handle_at(m.slot(h)) == h);
            assert(m.handles_in_slots(0, m.spec_first_invisible()).contains(h));
        }
        if m.handles_in_slots(0, m.spec_first_invisible()).contains(h) {
            let i = choose|i: int|
                0 <= i < m.spec_first_invisible() && m.handle_at(i) == h;
            assert(m.is_live(h) && m.slot(h) == i);
        }
    }
    assert forall|h: usize|
        m.handles_in_slots(m.spec_first_invisible(), m.spec_len() as int).contains(h)
            <==> m.invisible_handles().contains(h) by {
        if m.is_live(h) && !m.spec_visible(h) {
            assert(m.handle_at(m.slot(h)) == h);
            assert(m.handles_in_slots(m.spec_first_invisible(), m.spec_len() as int).contains(h));
        }
        if m.handles_in_slots(m.spec_first_invisible(), m.spec_len() as int).contains(h) {
            let i = choose|i: int|
                m.spec_first_invisible() <= i < m.spec_len() && m.handle_at(i) == h;
            assert(m.is_live(h) && m.slot(h) == i);
        }
    }
}

/// Index-map law: in a well-formed registry the map from live handles to
/// physical slots is a bijection onto the slot range: every live handle sits
/// in exactly one slot, no two handles share a slot, and every slot holds a
/// live handle mapped back to it.
pub proof fn lemma_index_map_bijection<V, I>(m: Model<V, I>)
    requires
        m.wf(),
    ensures
        forall|h: usize| m.is_live(h) ==> 0 <= #[trigger] m.slot(h) < m.spec_len(),
        forall|h1: usize, h2: usize|
            #![trigger m.slot(h1), m.slot(h2)]
            m.is_live(h1) && m.is_live(h2) && m.slot(h1) == m.slot(h2) ==> h1 == h2,
        forall|i: int|
            0 <= i < m.spec_len() ==> m.is_live(#[trigger] m.handle_at(i)) && m.slot(
                m.handle_at(i),
            ) == i,
{
    assert forall|h1: usize, h2: usize|
        #![trigger m.slot(h1), m.slot(h2)]
        m.is_live(h1) && m.is_live(h2) && m.slot(h1) == m.slot(h2) implies h1 == h2 by {
        assert(m.handles@[m.slot(h1)] == h1);
        assert(m.handles@[m.slot(h2)] == h2);
    }
    assert forall|i: int|
        0 <= i < m.spec_len() implies m.is_live(#[trigger] m.handle_at(i)) && m.slot(
        m.handle_at(i),
    ) == i by {
        assert((m.handles@[i] as int) < m.slot_of@.len());
        assert((m.slot_of@[m.handles@[i] as int].unwrap() as int) == i);
    }
}

/// Round-trip law: making an invisible instance visible and then invisible
/// again restores the observable state.  The hypotheses are exactly what the
/// contracts of `make_visible` and `make_invisible` guarantee for the two
/// intermediate registries `m1` and `m2`; the conclusion is that `m2` shows
/// every observer what `m0` did: the same live set, the same visible set, the
/// same cursor, and the same record under every handle.
pub proof fn lemma_visibility_round_trip<V, I>(m0: Model<V, I>, m1: Model<V, I>, m2: Model<V, I>, h: usize)
    requires
        m0.is_live(h),
        !m0.spec_visible(h),
        // what make_visible(h) == Ok ensures about m1
        m1.spec_visible(h),
        forall|g: usize| m1.is_live(g) == m0.is_live(g),
        forall|g: usize| m0.is_live(g) ==> m1.record_of(g) == m0.record_of(g),
        forall|g: usize| g != h && m0.is_live(g) ==> m1.spec_visible(g) == m0.spec_visible(g),
        m1.spec_first_invisible() == m0.spec_first_invisible() + 1,
        // what make_invisible(h) == Ok ensures about m2
        m2.is_live(h) && !m2.spec_visible(h),
        forall|g: usize| m2.is_live(g) == m1.is_live(g),
        forall|g: usize| m1.is_live(g) ==> m2.record_of(g) == m1.record_of(g),
        forall|g: usize| g != h && m1.is_live(g) ==> m2.spec_visible(g) == m1.spec_visible(g),
        m2.spec_first_invisible() == m1.spec_first_invisible() - 1,
    ensures
        m2.live_handles() =~= m0.live_handles(),
        m2.visible_handles() =~= m0.visible_handles(),
        m2.spec_first_invisible() == m0.spec_first_invisible(),
        forall|g: usize| m0.is_live(g) ==> m2.record_of(g) == m0.record_of(g),
{
    assert forall|g: usize|
        m2.visible_handles().contains(g) <==> m0.visible_handles().contains(g) by {
        if g != h {
            if m0.is_live(g) {
                assert(m2.spec_visible(g) == m0.spec_visible(g));
            } else {
                assert(!m2.is_live(g));
            }
        }
    }
}

} // verus!
