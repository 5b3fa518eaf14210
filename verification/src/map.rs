//! The parsed map as the interop layer reads it.
//!
//! Entities hold an edict (an ordered key-value mapping over NUL-free byte
//! strings) and, for brush entities, a non-empty ordered list of brushes;
//! each brush is an ordered list of surfaces. Every 64-bit float of the
//! source map is carried as its IEEE 754 bit pattern, which is exactly what
//! travels little-endian over the wire: the layer never computes with the
//! numbers, it only moves them.

use vstd::prelude::*;

use vstd::bytes::spec_u64_to_le_bytes;

use crate::status::LowApiCode;

verus! {

/// A NUL-terminated wire string's body: no interior terminator, and room
/// for the terminator within a 32-bit size.
pub open spec fn c_str_wf(s: Seq<u8>) -> bool {
    &&& forall|k: int| 0 <= k < s.len() ==> s[k] != 0
    &&& s.len() + 1 <= u32::MAX
}

/// A 3-component vector of 64-bit floats, held as bit patterns.
#[derive(Clone, Copy, PartialEq, Eq, Structural, Debug)]
pub struct Vec3 {
    pub x: u64,
    pub y: u64,
    pub z: u64,
}

/// Three points fixing the plane that bounds one face of a brush.
#[derive(Clone, Copy, PartialEq, Eq, Structural, Debug)]
pub struct HalfSpace {
    pub p0: Vec3,
    pub p1: Vec3,
    pub p2: Vec3,
}

/// Texture placement common to both alignment conventions.
#[derive(Clone, Copy, PartialEq, Eq, Structural, Debug)]
pub struct BaseAlignment {
    pub offset_x: u64,
    pub offset_y: u64,
    pub rotation: u64,
    pub scale_x: u64,
    pub scale_y: u64,
}

/// The two explicit texture-space axes of the Valve220 convention.
#[derive(Clone, Copy, PartialEq, Eq, Structural, Debug)]
pub struct TextureAxes {
    pub u: Vec3,
    pub v: Vec3,
}

/// A surface's texture-mapping convention.
#[derive(Clone, Copy, PartialEq, Eq, Structural, Debug)]
pub enum Alignment {
    /// Base alignment alone.
    Standard(BaseAlignment),
    /// Base alignment plus explicit texture axes.
    Valve220(BaseAlignment, TextureAxes),
}

impl Alignment {
    /// The base alignment, common to both conventions.
    pub open spec fn spec_base(self) -> BaseAlignment {
        match self {
            Alignment::Standard(b) => b,
            Alignment::Valve220(b, _) => b,
        }
    }

    /// Borrows the base alignment.
    pub fn base(&self) -> (r: &BaseAlignment)
        ensures
            *r == self.spec_base(),
    {
        match self {
            Alignment::Standard(b) => b,
            Alignment::Valve220(b, _) => b,
        }
    }
}

/// One textured face of a brush.
pub struct Surface {
    /// Texture name, without its wire terminator.
    pub texture: Vec<u8>,
    pub half_space: HalfSpace,
    pub alignment: Alignment,
}

impl Surface {
    pub open spec fn wf(&self) -> bool {
        c_str_wf(self.texture@)
    }
}

/// A convex polytope: an ordered sequence of surfaces.
pub struct Brush {
    pub surfaces: Vec<Surface>,
}

impl Brush {
    pub open spec fn wf(&self) -> bool {
        &&& self.surfaces@.len() <= u32::MAX
        &&& forall|s: int| 0 <= s < self.surfaces@.len() ==> (#[trigger] self.surfaces@[s]).wf()
    }
}

/// An entity's ordered key-value mapping.
pub struct Edict {
    pub entries: Vec<(Vec<u8>, Vec<u8>)>,
}

impl View for Edict {
    type V = Seq<(Seq<u8>, Seq<u8>)>;

    open spec fn view(&self) -> Seq<(Seq<u8>, Seq<u8>)> {
        self.entries@.map_values(|p: (Vec<u8>, Vec<u8>)| (p.0@, p.1@))
    }
}

/// The value stored under `key`, scanning entries in insertion order.
pub open spec fn edict_lookup(ed: Seq<(Seq<u8>, Seq<u8>)>, key: Seq<u8>) -> Option<Seq<u8>>
    decreases ed.len(),
{
    if ed.len() == 0 {
        None
    } else if ed[0].0 == key {
        Some(ed[0].1)
    } else {
        edict_lookup(ed.drop_first(), key)
    }
}

/// The keys of an edict, in insertion order.
pub open spec fn edict_keys(ed: Seq<(Seq<u8>, Seq<u8>)>) -> Seq<Seq<u8>> {
    ed.map_values(|p: (Seq<u8>, Seq<u8>)| p.0)
}

/// All keys of an edict concatenated, each followed by one NUL separator.
pub open spec fn keys_blob(ed: Seq<(Seq<u8>, Seq<u8>)>) -> Seq<u8>
    decreases ed.len(),
{
    if ed.len() == 0 {
        Seq::empty()
    } else {
        ed[0].0 + seq![0u8] + keys_blob(ed.drop_first())
    }
}

impl Edict {
    /// Keys are unique and both sides of every pair are wire strings.
    pub open spec fn wf(&self) -> bool {
        &&& forall|i: int, j: int| 0 <= i < j < self@.len() ==> self@[i].0 != self@[j].0
        &&& forall|i: int| 0 <= i < self@.len() ==> c_str_wf((#[trigger] self@[i]).0)
        &&& forall|i: int| 0 <= i < self@.len() ==> c_str_wf((#[trigger] self@[i]).1)
        &&& keys_blob(self@).len() <= u32::MAX
    }

    /// Looks the key up, scanning the entries in insertion order.
    pub fn get(&self, key: &Vec<u8>) -> (r: Option<&Vec<u8>>)
        ensures
            match r {
                Some(v) => edict_lookup(self@, key@) == Some(v@),
                None => edict_lookup(self@, key@) is None,
            },
    {
        proof {
            assert(self@.skip(0) =~= self@);
        }
        let mut i: usize = 0;
        while i < self.entries.len()
            invariant
                i <= self.entries@.len(),
                edict_lookup(self@, key@) == edict_lookup(self@.skip(i as int), key@),
            decreases self.entries@.len() - i,
        {
            proof {
                assert(self@.skip(i as int).drop_first() =~= self@.skip(i + 1));
            }
            if vecs_equal(&self.entries[i].0, key) {
                return Some(&self.entries[i].1);
            }
            i = i + 1;
        }
        None
    }
}

/// Byte-wise equality of two vectors.
pub fn vecs_equal(a: &Vec<u8>, b: &Vec<u8>) -> (r: bool)
    ensures
        r == (a@ == b@),
{
    if a.len() != b.len() {
        return false;
    }
    let mut i: usize = 0;
    while i < a.len()
        invariant
            i <= a@.len(),
            a@.len() == b@.len(),
            forall|k: int| 0 <= k < i ==> a@[k] == b@[k],
        decreases a@.len() - i,
    {
        if a[i] != b[i] {
            return false;
        }
        i = i + 1;
    }
    proof {
        assert(a@ =~= b@);
    }
    true
}

/// An entry of the map's entity list: a point entity is an edict alone, a
/// brush entity bears brushes as well.
pub enum Entity {
    Point(Edict),
    Brush(Edict, Vec<Brush>),
}

impl Entity {
    pub open spec fn spec_edict(&self) -> Edict {
        match self {
            Entity::Point(ed) => *ed,
            Entity::Brush(ed, _) => *ed,
        }
    }

    pub open spec fn is_point(&self) -> bool {
        self is Point
    }

    pub open spec fn spec_brushes(&self) -> Seq<Brush> {
        match self {
            Entity::Point(_) => Seq::empty(),
            Entity::Brush(_, brushes) => brushes@,
        }
    }

    pub open spec fn spec_brush_count(&self) -> nat {
        self.spec_brushes().len()
    }

    /// A brush entity bears at least one brush, and everything in the
    /// entity is well-formed and fits the 32-bit wire.
    pub open spec fn wf(&self) -> bool {
        &&& self.spec_edict().wf()
        &&& self is Brush ==> self.spec_brushes().len() >= 1
        &&& self.spec_brushes().len() <= u32::MAX
        &&& forall|b: int|
            0 <= b < self.spec_brushes().len() ==> (#[trigger] self.spec_brushes()[b]).wf()
    }

    /// Borrows the edict.
    pub fn edict(&self) -> (r: &Edict)
        ensures
            *r == self.spec_edict(),
    {
        match self {
            Entity::Point(ed) => ed,
            Entity::Brush(ed, _) => ed,
        }
    }

    /// How many brushes the entity bears; zero for a point entity.
    pub fn brush_count(&self) -> (r: usize)
        ensures
            r == self.spec_brush_count(),
    {
        match self {
            Entity::Point(_) => 0,
            Entity::Brush(_, brushes) => brushes.len(),
        }
    }
}

/// The parsed map: an ordered list of entities.
pub struct QuakeMap {
    pub entities: Vec<Entity>,
}

/// Resolution of an entity handle: the entity, or the status to report.
pub open spec fn spec_get_entity(m: QuakeMap, ehandle: u32) -> Result<Entity, LowApiCode> {
    if ehandle < m.entities@.len() {
        Ok(m.entities@[ehandle as int])
    } else {
        Err(LowApiCode::EntityLookupError)
    }
}

/// Resolution of `(entity, brush)`, checking the entity first, then its
/// kind, then the brush index.
pub open spec fn spec_get_brush(m: QuakeMap, ehandle: u32, brush_idx: u32) -> Result<
    Brush,
    LowApiCode,
> {
    match spec_get_entity(m, ehandle) {
        Err(code) => Err(code),
        Ok(entity) => {
            if entity.is_point() {
                Err(LowApiCode::EntityTypeError)
            } else if brush_idx < entity.spec_brushes().len() {
                Ok(entity.spec_brushes()[brush_idx as int])
            } else {
                Err(LowApiCode::BrushLookupError)
            }
        },
    }
}

/// Resolution of `(entity, brush, surface)`, extending the brush tie-break
/// order with the surface index.
pub open spec fn spec_get_surface(
    m: QuakeMap,
    ehandle: u32,
    brush_idx: u32,
    surface_idx: u32,
) -> Result<Surface, LowApiCode> {
    match spec_get_brush(m, ehandle, brush_idx) {
        Err(code) => Err(code),
        Ok(brush) => {
            if surface_idx < brush.surfaces@.len() {
                Ok(brush.surfaces@[surface_idx as int])
            } else {
                Err(LowApiCode::SurfaceLookupError)
            }
        },
    }
}

impl QuakeMap {
    /// Every entity is well-formed and the entity list fits the wire.
    pub open spec fn wf(&self) -> bool {
        &&& self.entities@.len() <= u32::MAX
        &&& forall|e: int| 0 <= e < self.entities@.len() ==> (#[trigger] self.entities@[e]).wf()
    }

    /// Resolves an entity handle to a borrowed entity or a status code.
    pub fn get_entity(&self, ehandle: u32) -> (r: Result<&Entity, LowApiCode>)
        ensures
            match r {
                Ok(entity) => spec_get_entity(*self, ehandle) == Ok::<Entity, LowApiCode>(*entity),
                Err(code) => spec_get_entity(*self, ehandle) == Err::<Entity, LowApiCode>(code),
            },
    {
        if (ehandle as usize) < self.entities.len() {
            Ok(&self.entities[ehandle as usize])
        } else {
            Err(LowApiCode::EntityLookupError)
        }
    }

    /// Resolves `(entity, brush)`, reporting the first level that fails.
    pub fn get_brush(&self, ehandle: u32, brush_idx: u32) -> (r: Result<&Brush, LowApiCode>)
        ensures
            match r {
                Ok(brush) => spec_get_brush(*self, ehandle, brush_idx) == Ok::<Brush, LowApiCode>(
                    *brush,
                ),
                Err(code) => spec_get_brush(*self, ehandle, brush_idx) == Err::<Brush, LowApiCode>(
                    code,
                ),
            },
    {
        match self.get_entity(ehandle) {
            Err(code) => Err(code),
            Ok(entity) => match entity {
                Entity::Point(_) => Err(LowApiCode::EntityTypeError),
                Entity::Brush(_, brushes) => {
                    if (brush_idx as usize) < brushes.len() {
                        Ok(&brushes[brush_idx as usize])
                    } else {
                        Err(LowApiCode::BrushLookupError)
                    }
                },
            },
        }
    }

    /// Resolves `(entity, brush, surface)`, reporting the first level that
    /// fails.
    pub fn get_surface(&self, ehandle: u32, brush_idx: u32, surface_idx: u32) -> (r: Result<
        &Surface,
        LowApiCode,
    >)
        ensures
            match r {
                Ok(surface) => spec_get_surface(*self, ehandle, brush_idx, surface_idx) == Ok::<
                    Surface,
                    LowApiCode,
                >(*surface),
                Err(code) => spec_get_surface(*self, ehandle, brush_idx, surface_idx) == Err::<
                    Surface,
                    LowApiCode,
                >(code),
            },
    {
        match self.get_brush(ehandle, brush_idx) {
            Err(code) => Err(code),
            Ok(brush) => {
                if (surface_idx as usize) < brush.surfaces.len() {
                    Ok(&brush.surfaces[surface_idx as usize])
                } else {
                    Err(LowApiCode::SurfaceLookupError)
                }
            },
        }
    }
}

/// The wire form of a 3-vector: each coordinate's bit pattern, little-endian.
pub open spec fn vec3_le_bytes(v: Vec3) -> Seq<u8> {
    spec_u64_to_le_bytes(v.x) + spec_u64_to_le_bytes(v.y) + spec_u64_to_le_bytes(v.z)
}

/// The wire form of a half-space: 9 coordinates, 72 bytes.
pub open spec fn half_space_le_bytes(h: HalfSpace) -> Seq<u8> {
    vec3_le_bytes(h.p0) + vec3_le_bytes(h.p1) + vec3_le_bytes(h.p2)
}

/// The wire form of a base alignment: offset, rotation, scale, 40 bytes.
pub open spec fn base_alignment_le_bytes(a: BaseAlignment) -> Seq<u8> {
    spec_u64_to_le_bytes(a.offset_x) + spec_u64_to_le_bytes(a.offset_y) + spec_u64_to_le_bytes(
        a.rotation,
    ) + spec_u64_to_le_bytes(a.scale_x) + spec_u64_to_le_bytes(a.scale_y)
}

/// The wire form of texture axes: two 3-vectors, 48 bytes.
pub open spec fn axes_le_bytes(a: TextureAxes) -> Seq<u8> {
    vec3_le_bytes(a.u) + vec3_le_bytes(a.v)
}

/// The wire sizes of the fixed payloads.
pub proof fn lemma_wire_lengths()
    ensures
        forall|v: Vec3| (#[trigger] vec3_le_bytes(v)).len() == 24,
        forall|h: HalfSpace| (#[trigger] half_space_le_bytes(h)).len() == 72,
        forall|a: BaseAlignment| (#[trigger] base_alignment_le_bytes(a)).len() == 40,
        forall|x: TextureAxes| (#[trigger] axes_le_bytes(x)).len() == 48,
{
    vstd::bytes::lemma_auto_spec_u64_to_from_le_bytes();
}

/// Where each coordinate sits in a half-space's wire form.
pub proof fn lemma_half_space_chunks(h: HalfSpace)
    ensures
        half_space_le_bytes(h).len() == 72,
        half_space_le_bytes(h).subrange(0, 8) == spec_u64_to_le_bytes(h.p0.x),
        half_space_le_bytes(h).subrange(8, 16) == spec_u64_to_le_bytes(h.p0.y),
        half_space_le_bytes(h).subrange(16, 24) == spec_u64_to_le_bytes(h.p0.z),
        half_space_le_bytes(h).subrange(24, 32) == spec_u64_to_le_bytes(h.p1.x),
        half_space_le_bytes(h).subrange(32, 40) == spec_u64_to_le_bytes(h.p1.y),
        half_space_le_bytes(h).subrange(40, 48) == spec_u64_to_le_bytes(h.p1.z),
        half_space_le_bytes(h).subrange(48, 56) == spec_u64_to_le_bytes(h.p2.x),
        half_space_le_bytes(h).subrange(56, 64) == spec_u64_to_le_bytes(h.p2.y),
        half_space_le_bytes(h).subrange(64, 72) == spec_u64_to_le_bytes(h.p2.z),
{
    vstd::bytes::lemma_auto_spec_u64_to_from_le_bytes();
    assert(half_space_le_bytes(h).subrange(0, 8) =~= spec_u64_to_le_bytes(h.p0.x));
    assert(half_space_le_bytes(h).subrange(8, 16) =~= spec_u64_to_le_bytes(h.p0.y));
    assert(half_space_le_bytes(h).subrange(16, 24) =~= spec_u64_to_le_bytes(h.p0.z));
    assert(half_space_le_bytes(h).subrange(24, 32) =~= spec_u64_to_le_bytes(h.p1.x));
    assert(half_space_le_bytes(h).subrange(32, 40) =~= spec_u64_to_le_bytes(h.p1.y));
    assert(half_space_le_bytes(h).subrange(40, 48) =~= spec_u64_to_le_bytes(h.p1.z));
    assert(half_space_le_bytes(h).subrange(48, 56) =~= spec_u64_to_le_bytes(h.p2.x));
    assert(half_space_le_bytes(h).subrange(56, 64) =~= spec_u64_to_le_bytes(h.p2.y));
    assert(half_space_le_bytes(h).subrange(64, 72) =~= spec_u64_to_le_bytes(h.p2.z));
}

/// Where each component sits in a base alignment's wire form.
pub proof fn lemma_base_alignment_chunks(a: BaseAlignment)
    ensures
        base_alignment_le_bytes(a).len() == 40,
        base_alignment_le_bytes(a).subrange(0, 8) == spec_u64_to_le_bytes(a.offset_x),
        base_alignment_le_bytes(a).subrange(8, 16) == spec_u64_to_le_bytes(a.offset_y),
        base_alignment_le_bytes(a).subrange(16, 24) == spec_u64_to_le_bytes(a.rotation),
        base_alignment_le_bytes(a).subrange(24, 32) == spec_u64_to_le_bytes(a.scale_x),
        base_alignment_le_bytes(a).subrange(32, 40) == spec_u64_to_le_bytes(a.scale_y),
{
    vstd::bytes::lemma_auto_spec_u64_to_from_le_bytes();
    assert(base_alignment_le_bytes(a).subrange(0, 8) =~= spec_u64_to_le_bytes(a.offset_x));
    assert(base_alignment_le_bytes(a).subrange(8, 16) =~= spec_u64_to_le_bytes(a.offset_y));
    assert(base_alignment_le_bytes(a).subrange(16, 24) =~= spec_u64_to_le_bytes(a.rotation));
    assert(base_alignment_le_bytes(a).subrange(24, 32) =~= spec_u64_to_le_bytes(a.scale_x));
    assert(base_alignment_le_bytes(a).subrange(32, 40) =~= spec_u64_to_le_bytes(a.scale_y));
}

/// Where each coordinate sits in a pair of texture axes' wire form.
pub proof fn lemma_axes_chunks(x: TextureAxes)
    ensures
        axes_le_bytes(x).len() == 48,
        axes_le_bytes(x).subrange(0, 8) == spec_u64_to_le_bytes(x.u.x),
        axes_le_bytes(x).subrange(8, 16) == spec_u64_to_le_bytes(x.u.y),
        axes_le_bytes(x).subrange(16, 24) == spec_u64_to_le_bytes(x.u.z),
        axes_le_bytes(x).subrange(24, 32) == spec_u64_to_le_bytes(x.v.x),
        axes_le_bytes(x).subrange(32, 40) == spec_u64_to_le_bytes(x.v.y),
        axes_le_bytes(x).subrange(40, 48) == spec_u64_to_le_bytes(x.v.z),
{
    vstd::bytes::lemma_auto_spec_u64_to_from_le_bytes();
    assert(axes_le_bytes(x).subrange(0, 8) =~= spec_u64_to_le_bytes(x.u.x));
    assert(axes_le_bytes(x).subrange(8, 16) =~= spec_u64_to_le_bytes(x.u.y));
    assert(axes_le_bytes(x).subrange(16, 24) =~= spec_u64_to_le_bytes(x.u.z));
    assert(axes_le_bytes(x).subrange(24, 32) =~= spec_u64_to_le_bytes(x.v.x));
    assert(axes_le_bytes(x).subrange(32, 40) =~= spec_u64_to_le_bytes(x.v.y));
    assert(axes_le_bytes(x).subrange(40, 48) =~= spec_u64_to_le_bytes(x.v.z));
}

/// Appends one coordinate's bit pattern, little-endian.
pub fn push_le64(out: &mut Vec<u8>, x: u64)
    ensures
        final(out)@ == old(out)@ + spec_u64_to_le_bytes(x),
{
    let bytes = vstd::bytes::u64_to_le_bytes(x);
    crate::text::append_bytes(out, &bytes);
}

/// Appends a 3-vector's wire form.
pub fn push_vec3(out: &mut Vec<u8>, v: &Vec3)
    ensures
        final(out)@ == old(out)@ + vec3_le_bytes(*v),
{
    push_le64(out, v.x);
    push_le64(out, v.y);
    push_le64(out, v.z);
    proof {
        assert(out@ =~= old(out)@ + vec3_le_bytes(*v));
    }
}

/// The 72-byte wire form of a half-space.
pub fn half_space_payload(h: &HalfSpace) -> (r: Vec<u8>)
    ensures
        r@ == half_space_le_bytes(*h),
{
    let mut out: Vec<u8> = Vec::new();
    push_vec3(&mut out, &h.p0);
    push_vec3(&mut out, &h.p1);
    push_vec3(&mut out, &h.p2);
    proof {
        assert(out@ =~= half_space_le_bytes(*h));
    }
    out
}

/// The 40-byte wire form of a base alignment.
pub fn base_alignment_payload(a: &BaseAlignment) -> (r: Vec<u8>)
    ensures
        r@ == base_alignment_le_bytes(*a),
{
    let mut out: Vec<u8> = Vec::new();
    push_le64(&mut out, a.offset_x);
    push_le64(&mut out, a.offset_y);
    push_le64(&mut out, a.rotation);
    push_le64(&mut out, a.scale_x);
    push_le64(&mut out, a.scale_y);
    proof {
        assert(out@ =~= base_alignment_le_bytes(*a));
    }
    out
}

/// The 48-byte wire form of a pair of texture axes.
pub fn axes_payload(a: &TextureAxes) -> (r: Vec<u8>)
    ensures
        r@ == axes_le_bytes(*a),
{
    let mut out: Vec<u8> = Vec::new();
    push_vec3(&mut out, &a.u);
    push_vec3(&mut out, &a.v);
    proof {
        assert(out@ =~= axes_le_bytes(*a));
    }
    out
}

/// The key blob of an edict, built in insertion order.
pub fn build_keys_blob(ed: &Edict) -> (r: Vec<u8>)
    ensures
        r@ == keys_blob(ed@),
{
    let mut out: Vec<u8> = Vec::new();
    let mut i: usize = 0;
    proof {
        assert(ed@.take(0) =~= Seq::<(Seq<u8>, Seq<u8>)>::empty());
    }
    while i < ed.entries.len()
        invariant
            i <= ed.entries@.len(),
            out@ == keys_blob(ed@.take(i as int)),
        decreases ed.entries@.len() - i,
    {
        crate::text::append_bytes(&mut out, &ed.entries[i].0);
        out.push(0);
        proof {
            lemma_keys_blob_step(ed@, i as int);
            assert(out@ =~= keys_blob(ed@.take(i + 1)));
        }
        i = i + 1;
    }
    proof {
        assert(ed@.take(ed@.len() as int) =~= ed@);
    }
    out
}

/// The summed sizes of an edict's keys, each counted with its separator.
pub open spec fn keys_total_len(ed: Seq<(Seq<u8>, Seq<u8>)>) -> int
    decreases ed.len(),
{
    if ed.len() == 0 {
        0
    } else {
        ed[0].0.len() + 1 + keys_total_len(ed.drop_first())
    }
}

/// The key blob's byte count is the sum of `len(key) + 1` over all keys,
/// taken in insertion order.
pub proof fn lemma_keys_blob_len(ed: Seq<(Seq<u8>, Seq<u8>)>)
    ensures
        keys_blob(ed).len() == keys_total_len(ed),
    decreases ed.len(),
{
    if ed.len() > 0 {
        lemma_keys_blob_len(ed.drop_first());
    }
}

/// Extending the prefix of an edict by one entry appends that entry's key
/// and a separator to the blob.
pub proof fn lemma_keys_blob_step(ed: Seq<(Seq<u8>, Seq<u8>)>, i: int)
    requires
        0 <= i < ed.len(),
    ensures
        keys_blob(ed.take(i + 1)) == keys_blob(ed.take(i)) + ed[i].0 + seq![0u8],
    decreases i,
{
    if i == 0 {
        assert(keys_blob(ed.take(1)) =~= ed[0].0 + seq![0u8] + keys_blob(
            ed.take(1).drop_first(),
        ));
        assert(ed.take(1).drop_first() =~= Seq::<(Seq<u8>, Seq<u8>)>::empty());
        assert(keys_blob(ed.take(0)) =~= Seq::<u8>::empty());
        assert(keys_blob(ed.take(1)) =~= keys_blob(ed.take(0)) + ed[0].0 + seq![0u8]);
    } else {
        let rest = ed.drop_first();
        lemma_keys_blob_step(rest, i - 1);
        assert(ed.take(i + 1).drop_first() =~= rest.take(i));
        assert(ed.take(i).drop_first() =~= rest.take(i - 1));
        assert(keys_blob(ed.take(i + 1)) =~= keys_blob(ed.take(i)) + ed[i].0 + seq![0u8]);
    }
}

/// Whether an edict's keys are pairwise distinct.
pub open spec fn edict_keys_unique(ed: Seq<(Seq<u8>, Seq<u8>)>) -> bool {
    forall|i: int, j: int| 0 <= i < j < ed.len() ==> ed[i].0 != ed[j].0
}

/// With unique keys, looking up any listed key yields the value stored
/// beside it: walking the keys and reading each back visits every pair.
pub proof fn lemma_lookup_each_key(ed: Seq<(Seq<u8>, Seq<u8>)>, i: int)
    requires
        edict_keys_unique(ed),
        0 <= i < ed.len(),
    ensures
        edict_lookup(ed, ed[i].0) == Some(ed[i].1),
    decreases ed.len(),
{
    if i > 0 {
        lemma_lookup_each_key(ed.drop_first(), i - 1);
    }
}

/// A brush count of zero singles out exactly the point entities: a
/// well-formed brush entity bears at least one brush.
pub proof fn lemma_point_entity_iff_no_brushes(m: QuakeMap, ehandle: u32)
    requires
        m.wf(),
        ehandle < m.entities@.len(),
    ensures
        m.entities@[ehandle as int].spec_brush_count() == 0 <==> m.entities@[
            ehandle as int
        ].is_point(),
{
}

} // verus!
