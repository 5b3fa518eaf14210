//! Keyed edits over a map's edicts, gathered first and applied in one pass.
//!
//! A [`Patch`] says what happens to one key: left alone, deleted, or given
//! a new value. An [`EdictPatch`] gathers such edits per key; an
//! [`EntityPatcher`] applies them to one entity's edict; a
//! [`QuakeMapPatcher`] carries one patcher per entity of a map and yields
//! the patched map.

use vstd::prelude::*;

use crate::map::Edict;
use crate::map::Entity;
use crate::map::QuakeMap;
use crate::map::vecs_equal;
use crate::mem::clone_bytes;

verus! {

/// The fate of one key under a patch.
pub enum Patch<T> {
    /// Keep the stored value.
    Leave,
    /// Drop the pair.
    Delete,
    /// Replace the value.
    Modify(T),
}

impl<T> Default for Patch<T> {
    /// An absent edit leaves the key alone.
    fn default() -> (r: Self)
        ensures
            r is Leave,
    {
        Patch::Leave
    }
}

/// The ghost form of a byte-valued patch.
pub open spec fn patch_view(p: Patch<Vec<u8>>) -> Patch<Seq<u8>> {
    match p {
        Patch::Leave => Patch::Leave,
        Patch::Delete => Patch::Delete,
        Patch::Modify(v) => Patch::Modify(v@),
    }
}

/// The edit stored under `key`: `Leave` where none is stored.
pub open spec fn patch_lookup(ps: Seq<(Seq<u8>, Patch<Seq<u8>>)>, key: Seq<u8>) -> Patch<Seq<u8>>
    decreases ps.len(),
{
    if ps.len() == 0 {
        Patch::Leave
    } else if ps[0].0 == key {
        ps[0].1
    } else {
        patch_lookup(ps.drop_first(), key)
    }
}

/// Keyed edits over one edict.
pub struct EdictPatch {
    pub entries: Vec<(Vec<u8>, Patch<Vec<u8>>)>,
}

impl View for EdictPatch {
    type V = Seq<(Seq<u8>, Patch<Seq<u8>>)>;

    open spec fn view(&self) -> Seq<(Seq<u8>, Patch<Seq<u8>>)> {
        self.entries@.map_values(|e: (Vec<u8>, Patch<Vec<u8>>)| (e.0@, patch_view(e.1)))
    }
}

impl EdictPatch {
    /// A patch that edits nothing.
    pub fn new() -> (r: EdictPatch)
        ensures
            r@.len() == 0,
    {
        EdictPatch { entries: Vec::new() }
    }

    /// The edit stored for `key`, `Leave` where none is.
    pub fn get(&self, key: &Vec<u8>) -> (r: Patch<Vec<u8>>)
        ensures
            patch_view(r) == patch_lookup(self@, key@),
    {
        proof {
            assert(self@.skip(0) =~= self@);
        }
        let mut i: usize = 0;
        while i < self.entries.len()
            invariant
                i <= self.entries@.len(),
                patch_lookup(self@, key@) == patch_lookup(self@.skip(i as int), key@),
            decreases self.entries@.len() - i,
        {
            proof {
                assert(self@.skip(i as int).drop_first() =~= self@.skip(i + 1));
            }
            if vecs_equal(&self.entries[i].0, key) {
                return match &self.entries[i].1 {
                    Patch::Leave => Patch::Leave,
                    Patch::Delete => Patch::Delete,
                    Patch::Modify(v) => Patch::Modify(clone_bytes(v)),
                };
            }
            i = i + 1;
        }
        Patch::Leave
    }

    /// Stores an edit for `key`, replacing any edit already stored there.
    pub fn set(&mut self, key: &Vec<u8>, patch: Patch<Vec<u8>>)
        ensures
            patch_lookup(final(self)@, key@) == patch_view(patch),
            forall|other: Seq<u8>|
                other != key@ ==> patch_lookup(final(self)@, other) == patch_lookup(
                    old(self)@,
                    other,
                ),
    {
        proof {
            assert(self@.skip(0) =~= self@);
        }
        let mut i: usize = 0;
        while i < self.entries.len()
            invariant
                i <= self.entries@.len(),
                self@ == old(self)@,
                forall|k: int| 0 <= k < i ==> old(self)@[k].0 != key@,
            decreases self.entries@.len() - i,
        {
            if vecs_equal(&self.entries[i].0, key) {
                let stored_key = clone_bytes(key);
                self.entries.set(i, (stored_key, patch));
                proof {
                    lemma_patch_lookup_update(old(self)@, i as int, key@, patch_view(patch));
                    assert(final(self)@ =~= old(self)@.update(
                        i as int,
                        (key@, patch_view(patch)),
                    ));
                }
                return ;
            }
            i = i + 1;
        }
        let stored_key = clone_bytes(key);
        self.entries.push((stored_key, patch));
        proof {
            lemma_patch_lookup_append(old(self)@, key@, patch_view(patch));
            assert(final(self)@ =~= old(self)@ + seq![(key@, patch_view(patch))]);
        }
    }
}

/// Updating the entry at a key's own position changes that key's lookup
/// and no other, provided no earlier entry shadows the key.
proof fn lemma_patch_lookup_update(
    ps: Seq<(Seq<u8>, Patch<Seq<u8>>)>,
    i: int,
    key: Seq<u8>,
    patch: Patch<Seq<u8>>,
)
    requires
        0 <= i < ps.len(),
        ps[i].0 == key,
        forall|k: int| 0 <= k < i ==> ps[k].0 != key,
    ensures
        patch_lookup(ps.update(i, (key, patch)), key) == patch,
        forall|other: Seq<u8>|
            other != key ==> patch_lookup(ps.update(i, (key, patch)), other) == patch_lookup(
                ps,
                other,
            ),
    decreases ps.len(),
{
    let updated = ps.update(i, (key, patch));
    if i == 0 {
        assert forall|other: Seq<u8>| other != key implies patch_lookup(updated, other)
            == patch_lookup(ps, other) by {
            assert(updated.drop_first() =~= ps.drop_first());
            assert(patch_lookup(updated, other) == patch_lookup(updated.drop_first(), other));
            assert(patch_lookup(ps, other) == patch_lookup(ps.drop_first(), other));
        }
    } else {
        lemma_patch_lookup_update(ps.drop_first(), i - 1, key, patch);
        assert(updated.drop_first() =~= ps.drop_first().update(i - 1, (key, patch)));
        assert(updated[0] == ps[0]);
        assert(ps[0].0 != key);
        assert forall|other: Seq<u8>| other != key implies patch_lookup(updated, other)
            == patch_lookup(ps, other) by {
            if ps[0].0 == other {
                assert(patch_lookup(updated, other) == updated[0].1);
                assert(patch_lookup(ps, other) == ps[0].1);
            } else {
                assert(patch_lookup(updated, other) == patch_lookup(updated.drop_first(), other));
                assert(patch_lookup(ps, other) == patch_lookup(ps.drop_first(), other));
            }
        }
    }
}

/// Appending an entry for a fresh key changes that key's lookup and no
/// other.
proof fn lemma_patch_lookup_append(
    ps: Seq<(Seq<u8>, Patch<Seq<u8>>)>,
    key: Seq<u8>,
    patch: Patch<Seq<u8>>,
)
    requires
        forall|k: int| 0 <= k < ps.len() ==> ps[k].0 != key,
    ensures
        patch_lookup(ps + seq![(key, patch)], key) == patch,
        forall|other: Seq<u8>|
            other != key ==> patch_lookup(ps + seq![(key, patch)], other) == patch_lookup(
                ps,
                other,
            ),
    decreases ps.len(),
{
    let appended = ps + seq![(key, patch)];
    if ps.len() == 0 {
        assert(appended[0] == (key, patch));
        assert forall|other: Seq<u8>| other != key implies patch_lookup(appended, other)
            == patch_lookup(ps, other) by {
            assert(appended.drop_first() =~= Seq::<(Seq<u8>, Patch<Seq<u8>>)>::empty());
            assert(patch_lookup(appended, other) == patch_lookup(appended.drop_first(), other));
            assert(patch_lookup(appended.drop_first(), other) == Patch::<Seq<u8>>::Leave);
            assert(patch_lookup(ps, other) == Patch::<Seq<u8>>::Leave);
        }
    } else {
        lemma_patch_lookup_append(ps.drop_first(), key, patch);
        assert(appended.drop_first() =~= ps.drop_first() + seq![(key, patch)]);
        assert(appended[0] == ps[0]);
        assert forall|other: Seq<u8>| other != key implies patch_lookup(appended, other)
            == patch_lookup(ps, other) by {
            if ps[0].0 == other {
                assert(patch_lookup(appended, other) == appended[0].1);
                assert(patch_lookup(ps, other) == ps[0].1);
            } else {
                assert(patch_lookup(appended, other) == patch_lookup(appended.drop_first(), other));
                assert(patch_lookup(ps, other) == patch_lookup(ps.drop_first(), other));
            }
        }
    }
}

/// What one edict entry becomes under a patch.
pub open spec fn patch_contribution(
    entry: (Seq<u8>, Seq<u8>),
    ps: Seq<(Seq<u8>, Patch<Seq<u8>>)>,
) -> Seq<(Seq<u8>, Seq<u8>)> {
    match patch_lookup(ps, entry.0) {
        Patch::Leave => seq![entry],
        Patch::Delete => Seq::empty(),
        Patch::Modify(value) => seq![(entry.0, value)],
    }
}

/// An edict after a patch: each pair kept, dropped or rewritten in place;
/// keys the edict does not hold are ignored.
pub open spec fn apply_edict_patch(
    ed: Seq<(Seq<u8>, Seq<u8>)>,
    ps: Seq<(Seq<u8>, Patch<Seq<u8>>)>,
) -> Seq<(Seq<u8>, Seq<u8>)>
    decreases ed.len(),
{
    if ed.len() == 0 {
        Seq::empty()
    } else {
        patch_contribution(ed[0], ps) + apply_edict_patch(ed.drop_first(), ps)
    }
}

/// Extending the patched prefix of an edict by one entry appends that
/// entry's contribution.
proof fn lemma_apply_edict_patch_step(
    ed: Seq<(Seq<u8>, Seq<u8>)>,
    ps: Seq<(Seq<u8>, Patch<Seq<u8>>)>,
    i: int,
)
    requires
        0 <= i < ed.len(),
    ensures
        apply_edict_patch(ed.take(i + 1), ps) == apply_edict_patch(ed.take(i), ps)
            + patch_contribution(ed[i], ps),
    decreases i,
{
    if i == 0 {
        assert(ed.take(1).drop_first() =~= Seq::<(Seq<u8>, Seq<u8>)>::empty());
        assert(ed.take(1)[0] == ed[0]);
        assert(apply_edict_patch(ed.take(0), ps) == Seq::<(Seq<u8>, Seq<u8>)>::empty());
        assert(apply_edict_patch(ed.take(1).drop_first(), ps) == Seq::<(Seq<u8>, Seq<u8>)>::empty());
        assert(apply_edict_patch(ed.take(1), ps) =~= apply_edict_patch(ed.take(0), ps)
            + patch_contribution(ed[0], ps));
    } else {
        let rest = ed.drop_first();
        lemma_apply_edict_patch_step(rest, ps, i - 1);
        assert(ed.take(i + 1).drop_first() =~= rest.take(i));
        assert(ed.take(i).drop_first() =~= rest.take(i - 1));
        assert(ed.take(i + 1)[0] == ed[0]);
        assert(ed.take(i)[0] == ed[0]);
        assert(rest[i - 1] == ed[i]);
        assert(apply_edict_patch(ed.take(i + 1), ps) == patch_contribution(ed[0], ps)
            + apply_edict_patch(rest.take(i), ps));
        assert(apply_edict_patch(ed.take(i), ps) == patch_contribution(ed[0], ps)
            + apply_edict_patch(rest.take(i - 1), ps));
        assert(apply_edict_patch(ed.take(i + 1), ps) =~= apply_edict_patch(ed.take(i), ps)
            + patch_contribution(ed[i], ps));
    }
}

/// The edits gathered for one entity.
pub struct EntityPatcher {
    pub edict_patch: EdictPatch,
}

impl EntityPatcher {
    /// A patcher that edits nothing.
    pub fn new() -> (r: EntityPatcher)
        ensures
            r.edict_patch@.len() == 0,
    {
        EntityPatcher { edict_patch: EdictPatch::new() }
    }

    /// Applies the gathered edits to one edict.
    pub fn apply(&self, ed: &Edict) -> (r: Edict)
        ensures
            r@ == apply_edict_patch(ed@, self.edict_patch@),
    {
        let mut out: Vec<(Vec<u8>, Vec<u8>)> = Vec::new();
        let mut i: usize = 0;
        proof {
            assert(ed@.take(0) =~= Seq::<(Seq<u8>, Seq<u8>)>::empty());
            assert(Edict { entries: out }@ =~= apply_edict_patch(ed@.take(0), self.edict_patch@));
        }
        while i < ed.entries.len()
            invariant
                i <= ed.entries@.len(),
                out@.map_values(|p: (Vec<u8>, Vec<u8>)| (p.0@, p.1@)) == apply_edict_patch(
                    ed@.take(i as int),
                    self.edict_patch@,
                ),
            decreases ed.entries@.len() - i,
        {
            let key = clone_bytes(&ed.entries[i].0);
            match self.edict_patch.get(&key) {
                Patch::Leave => {
                    out.push((key, clone_bytes(&ed.entries[i].1)));
                },
                Patch::Delete => {},
                Patch::Modify(value) => {
                    out.push((key, value));
                },
            }
            proof {
                lemma_apply_edict_patch_step(ed@, self.edict_patch@, i as int);
                assert(out@.map_values(|p: (Vec<u8>, Vec<u8>)| (p.0@, p.1@)) =~= apply_edict_patch(
                    ed@.take(i + 1),
                    self.edict_patch@,
                ));
            }
            i = i + 1;
        }
        proof {
            assert(ed@.take(ed@.len() as int) =~= ed@);
        }
        Edict { entries: out }
    }
}

/// What a patched entity looks like: same kind, same brushes, the edict
/// rewritten by the entity's patcher.
pub open spec fn entity_patched(pre: Entity, patcher: EntityPatcher, post: Entity) -> bool {
    &&& (post is Point <==> pre is Point)
    &&& post.spec_edict()@ == apply_edict_patch(pre.spec_edict()@, patcher.edict_patch@)
    &&& post.spec_brushes() == pre.spec_brushes()
}

/// A map together with one patcher per entity.
pub struct QuakeMapPatcher {
    pub entity_patches: Vec<EntityPatcher>,
    pub qmap: QuakeMap,
}

impl QuakeMapPatcher {
    /// Starts from a map with every entity left alone.
    pub fn new(qmap: QuakeMap) -> (r: QuakeMapPatcher)
        ensures
            r.qmap == qmap,
            r.entity_patches@.len() == qmap.entities@.len(),
            forall|e: int|
                0 <= e < r.entity_patches@.len() ==> (#[trigger] r.entity_patches@[e]).edict_patch@
                    =~= Seq::<(Seq<u8>, Patch<Seq<u8>>)>::empty(),
    {
        let mut entity_patches: Vec<EntityPatcher> = Vec::new();
        let mut i: usize = 0;
        let count = qmap.entities.len();
        while i < count
            invariant
                i <= count,
                entity_patches@.len() == i,
                forall|e: int|
                    0 <= e < entity_patches@.len() ==> (
                    #[trigger] entity_patches@[e]).edict_patch@.len() == 0,
            decreases count - i,
        {
            entity_patches.push(EntityPatcher::new());
            i = i + 1;
        }
        QuakeMapPatcher { entity_patches, qmap }
    }

    /// Applies every entity's edits, yielding the patched map.
    pub fn patch(self) -> (r: QuakeMap)
        requires
            self.entity_patches@.len() == self.qmap.entities@.len(),
        ensures
            r.entities@.len() == self.qmap.entities@.len(),
            forall|e: int|
                0 <= e < r.entities@.len() ==> entity_patched(
                    self.qmap.entities@[e],
                    self.entity_patches@[e],
                    #[trigger] r.entities@[e],
                ),
    {
        let QuakeMapPatcher { entity_patches, qmap } = self;
        let mut remaining = qmap.entities;
        let ghost originals = remaining@;
        let mut out: Vec<Entity> = Vec::new();
        let mut i: usize = 0;
        let count = entity_patches.len();
        while i < count
            invariant
                i <= count,
                count == originals.len(),
                count == entity_patches@.len(),
                remaining@ == originals.skip(i as int),
                out@.len() == i,
                forall|e: int|
                    0 <= e < i ==> entity_patched(
                        originals[e],
                        entity_patches@[e],
                        #[trigger] out@[e],
                    ),
            decreases count - i,
        {
            let entity = remaining.remove(0);
            proof {
                assert(remaining@ =~= originals.skip(i + 1));
            }
            let patched = match entity {
                Entity::Point(ed) => Entity::Point(entity_patches[i].apply(&ed)),
                Entity::Brush(ed, brushes) => Entity::Brush(
                    entity_patches[i].apply(&ed),
                    brushes,
                ),
            };
            out.push(patched);
            i = i + 1;
        }
        QuakeMap { entities: out }
    }
}

} // verus!
