//! Entity handles: the guest-side names for the map's entities.

use vstd::prelude::*;

use crate::abi::ProcessEnv;

verus! {

/// An index into the map's ordered entity list, valid for the duration of
/// the `process` hook.
pub struct EntityHandle {
    entity_idx: u32,
}

impl EntityHandle {
    /// The index as the contracts see it.
    pub closed spec fn spec_index(&self) -> u32 {
        self.entity_idx
    }

    pub fn new(entity_idx: u32) -> (r: EntityHandle)
        ensures
            r.spec_index() == entity_idx,
    {
        EntityHandle { entity_idx }
    }

    /// The raw index to hand to the ABI.
    pub fn index(&self) -> (r: u32)
        ensures
            r == self.spec_index(),
    {
        self.entity_idx
    }
}

/// One handle for each entity of the map, in order.
pub fn entity_handles(env: &ProcessEnv) -> (r: Vec<EntityHandle>)
    requires
        env.map.wf(),
    ensures
        r@.len() == env.map.entities@.len(),
        forall|i: int| 0 <= i < r@.len() ==> (#[trigger] r@[i]).spec_index() == i,
{
    let count = crate::guest::ehandle_count(env);
    let mut out: Vec<EntityHandle> = Vec::new();
    let mut i: u32 = 0;
    while i < count
        invariant
            i <= count,
            count == env.map.entities@.len(),
            out@.len() == i,
            forall|k: int| 0 <= k < out@.len() ==> (#[trigger] out@[k]).spec_index() == k,
        decreases count - i,
    {
        out.push(EntityHandle::new(i));
        i = i + 1;
    }
    out
}

} // verus!
