//! Uploaded geometry, one live buffer per mesh identity.
//!
//! Handles are slot numbers and slots are never reused, so a handle whose
//! geometry was disposed of stays invalid for good.
use vstd::prelude::*;

use crate::error::RenderError;
use crate::pipeline::BufferHandle;

verus! {

/// The live slot holding `mesh`, if any.
pub open spec fn live_slot(slots: Seq<(u64, bool)>, mesh: u64) -> Option<int> {
    if exists|i: int| 0 <= i < slots.len() && slots[i] == (mesh, true) {
        Some(choose|i: int| 0 <= i < slots.len() && slots[i] == (mesh, true))
    } else {
        None
    }
}

/// No mesh has two live slots.
pub open spec fn live_unique(slots: Seq<(u64, bool)>) -> bool {
    forall|i: int, j: int|
        0 <= i < slots.len() && 0 <= j < slots.len() && i != j && slots[i].1 && slots[j].1
            ==> slots[i].0 != slots[j].0
}

struct GeometrySlot<B> {
    mesh: u64,
    buffer: Option<B>,
}

/// Backend buffers, one slot per upload; a disposed slot keeps its mesh id
/// and loses its buffer.
pub struct GeometryStore<B> {
    slots: Vec<GeometrySlot<B>>,
}

impl<B> GeometryStore<B> {
    /// Each slot's mesh id and whether it is live.
    pub closed spec fn slots(self) -> Seq<(u64, bool)> {
        self.slots@.map_values(|s: GeometrySlot<B>| (s.mesh, s.buffer is Some))
    }

    /// Each slot's buffer, `None` once disposed.
    pub closed spec fn buffers(self) -> Seq<Option<B>> {
        self.slots@.map_values(|s: GeometrySlot<B>| s.buffer)
    }

    pub open spec fn wf(self) -> bool {
        &&& live_unique(self.slots())
        &&& self.buffers().len() == self.slots().len()
        &&& forall|i: int| 0 <= i < self.slots().len() ==> (#[trigger] self.slots()[i]).1 == self.buffers()[i] is Some
    }

    /// `h` names a slot whose geometry has not been disposed of.
    pub open spec fn is_live(self, h: BufferHandle) -> bool {
        h.0 < self.slots().len() && self.slots()[h.0 as int].1
    }

    pub fn new() -> (r: Self)
        ensures
            r.wf(),
            r.slots() == Seq::<(u64, bool)>::empty(),
    {
        GeometryStore { slots: Vec::new() }
    }

    /// Finds the live geometry of `mesh`.
    pub fn find(&self, mesh: u64) -> (r: Option<BufferHandle>)
        requires
            self.wf(),
        ensures
            match r {
                Some(h) => live_slot(self.slots(), mesh) == Some(h.0 as int),
                None => live_slot(self.slots(), mesh) is None,
            },
    {
        let mut i: usize = 0;
        while i < self.slots.len()
            invariant
                self.wf(),
                0 <= i <= self.slots@.len(),
                forall|j: int| 0 <= j < i ==> self.slots()[j] != (mesh, true),
            decreases self.slots@.len() - i,
        {
            let s = &self.slots[i];
            if s.mesh == mesh && s.buffer.is_some() {
                proof {
                    assert(self.slots()[i as int] == (mesh, true));
                    let k = choose|k: int| 0 <= k < self.slots().len() && self.slots()[k] == (mesh, true);
                    assert(k == i);
                }
                return Some(BufferHandle(i));
            }
            assert(self.slots()[i as int] != (mesh, true));
            i = i + 1;
        }
        None
    }

    /// Stores the geometry of `mesh`. A mesh that is already live keeps its
    /// buffer and handle: geometry is never changed after upload.
    pub fn upload(&mut self, mesh: u64, buffer: B) -> (r: BufferHandle)
        requires
            old(self).wf(),
        ensures
            final(self).wf(),
            final(self).is_live(r),
            live_slot(final(self).slots(), mesh) == Some(r.0 as int),
            match live_slot(old(self).slots(), mesh) {
                Some(i) => r.0 == i && final(self).slots() == old(self).slots()
                    && final(self).buffers() == old(self).buffers(),
                None => r.0 == old(self).slots().len() && final(self).slots() == old(
                    self,
                ).slots().push((mesh, true)) && final(self).buffers() == old(
                    self,
                ).buffers().push(Some(buffer)),
            },
    {
        match self.find(mesh) {
            Some(h) => {
                proof {
                    let i = h.0 as int;
                    assert(self.slots()[i] == (mesh, true));
                }
                h
            },
            None => {
                let n = self.slots.len();
                self.slots.push(GeometrySlot { mesh, buffer: Some(buffer) });
                proof {
                    assert(self.slots() =~= old(self).slots().push((mesh, true)));
                    assert(self.buffers() =~= old(self).buffers().push(Some(buffer)));
                    assert(self.slots()[n as int] == (mesh, true));
                    let k = choose|k: int| 0 <= k < self.slots().len() && self.slots()[k] == (mesh, true);
                    assert(k == n);
                }
                BufferHandle(n)
            },
        }
    }

    /// Releases live geometry; its handle is invalid from then on.
    /// `HandleInvalid` for a handle that is not live.
    pub fn dispose(&mut self, h: BufferHandle) -> (r: Result<(), RenderError>)
        requires
            old(self).wf(),
        ensures
            final(self).wf(),
            match r {
                Ok(_) => old(self).is_live(h) && final(self).slots() == old(self).slots().update(
                    h.0 as int,
                    (old(self).slots()[h.0 as int].0, false),
                ) && final(self).buffers() == old(self).buffers().update(h.0 as int, None),
                Err(e) => !old(self).is_live(h) && e is HandleInvalid && final(self).slots()
                    == old(self).slots() && final(self).buffers() == old(self).buffers(),
            },
    {
        if h.0 >= self.slots.len() || self.slots[h.0].buffer.is_none() {
            return Err(RenderError::HandleInvalid);
        }
        let mesh = self.slots[h.0].mesh;
        self.slots.set(h.0, GeometrySlot { mesh, buffer: None });
        proof {
            assert(self.slots() =~= old(self).slots().update(h.0 as int, (mesh, false)));
            assert(self.buffers() =~= old(self).buffers().update(h.0 as int, None));
        }
        Ok(())
    }

    /// The live buffer a handle names, to bind for a draw; `HandleInvalid`
    /// for a handle that is not live.
    pub fn bind(&self, h: BufferHandle) -> (r: Result<&B, RenderError>)
        requires
            self.wf(),
        ensures
            match r {
                Ok(b) => self.is_live(h) && self.buffers()[h.0 as int] == Some(*b),
                Err(e) => !self.is_live(h) && e is HandleInvalid,
            },
    {
        if h.0 >= self.slots.len() {
            return Err(RenderError::HandleInvalid);
        }
        match &self.slots[h.0].buffer {
            Some(b) => Ok(b),
            None => Err(RenderError::HandleInvalid),
        }
    }
}

} // verus!
