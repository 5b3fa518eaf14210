//! The high-level guest API: typed wrappers that hide the two-phase
//! protocol and the status-code discipline.
//!
//! These run against the import handlers over the guest's own linear
//! memory: each wrapper allocates the buffers the protocol needs, issues
//! the matching import calls, and decodes the bytes back into values. Every
//! size reported by an `init_read` is consumed by the matching `read`
//! before anything else touches that family, so the protocol's invariant
//! holds by construction, and each wrapper returns exactly the map datum
//! its contract names.

use vstd::prelude::*;

use vstd::bytes::spec_u32_from_le_bytes;
use vstd::bytes::spec_u64_from_le_bytes;
use vstd::bytes::spec_u64_to_le_bytes;
use vstd::bytes::u32_from_le_bytes;
use vstd::bytes::u64_from_le_bytes;

use crate::abi;
use crate::abi::InitEnv;
use crate::abi::PluginEnv;
use crate::abi::ProcessEnv;
use crate::map::edict_keys;
use crate::map::edict_lookup;
use crate::map::keys_blob;
use crate::map::spec_get_brush;
use crate::map::spec_get_entity;
use crate::map::spec_get_surface;
use crate::map::Alignment;
use crate::map::BaseAlignment;
use crate::map::HalfSpace;
use crate::map::QuakeMap;
use crate::map::TextureAxes;
use crate::map::Vec3;
use crate::mem::bytes_with_nul;
use crate::mem::lemma_nul_pos_from_scan;
use crate::mem::nul_pos;
use crate::mem::GuestMem;
use crate::status::HostFault;
use crate::status::LowApiCode;
use crate::text::is_utf8;
use crate::text::log_line;
use crate::text::LogLevel;
use crate::transaction::Transaction;

verus! {

/// The wire size of the value staged by a key-value read, or 0 where the
/// lookup reports a status instead.
pub open spec fn kv_payload_size(m: QuakeMap, ehandle: u32, key: Seq<u8>) -> int {
    match spec_get_entity(m, ehandle) {
        Err(_) => 0,
        Ok(entity) => match edict_lookup(entity.spec_edict()@, key) {
            None => 0,
            Some(value) => value.len() as int + 1,
        },
    }
}

/// The wire size of the blob staged by a keys read, or 0 where the lookup
/// reports a status instead.
pub open spec fn keys_payload_size(m: QuakeMap, ehandle: u32) -> int {
    match spec_get_entity(m, ehandle) {
        Err(_) => 0,
        Ok(entity) => keys_blob(entity.spec_edict()@).len() as int,
    }
}

/// The wire size of the name staged by a texture read, or 0 where the
/// lookup reports a status instead.
pub open spec fn texture_payload_size(
    m: QuakeMap,
    ehandle: u32,
    brush_idx: u32,
    surface_idx: u32,
) -> int {
    match spec_get_surface(m, ehandle, brush_idx, surface_idx) {
        Err(_) => 0,
        Ok(surface) => surface.texture@.len() as int + 1,
    }
}

/// Reads one little-endian 64-bit pattern out of guest memory.
fn read_le64(mem: &GuestMem, ptr: u32) -> (r: u64)
    requires
        ptr + 8 <= mem@.len(),
    ensures
        r == spec_u64_from_le_bytes(mem@.subrange(ptr as int, ptr + 8)),
{
    let bytes = mem.read_bytes(ptr, 8);
    u64_from_le_bytes(bytes.as_slice())
}

/// Reads the 32-bit size an `init_read` reported.
fn read_le32(mem: &GuestMem, ptr: u32) -> (r: u32)
    requires
        ptr + 4 <= mem@.len(),
    ensures
        r == spec_u32_from_le_bytes(mem@.subrange(ptr as int, ptr + 4)),
{
    let bytes = mem.read_bytes(ptr, 4);
    u32_from_le_bytes(bytes.as_slice())
}

/// Splits a byte sequence at each NUL: the segments between terminators,
/// with a ragged unterminated tail kept as a last segment.
pub open spec fn nul_split(s: Seq<u8>) -> Seq<Seq<u8>>
    decreases s.len(),
    via nul_split_decreases
{
    if s.len() == 0 {
        Seq::empty()
    } else {
        let p = nul_pos(s, 0);
        if p >= s.len() {
            seq![s]
        } else {
            seq![s.take(p)] + nul_split(s.skip(p + 1))
        }
    }
}

#[via_fn]
proof fn nul_split_decreases(s: Seq<u8>) {
    if s.len() > 0 {
        crate::mem::lemma_nul_pos(s, 0);
    }
}

/// Splitting the key blob on NUL recovers exactly the keys, in insertion
/// order: the blob terminates each key and keys hold no interior NUL.
pub proof fn lemma_nul_split_keys_blob(ed: Seq<(Seq<u8>, Seq<u8>)>)
    requires
        forall|i: int| 0 <= i < ed.len() ==> crate::map::c_str_wf((#[trigger] ed[i]).0),
    ensures
        nul_split(keys_blob(ed)) == edict_keys(ed),
    decreases ed.len(),
{
    if ed.len() == 0 {
        assert(nul_split(keys_blob(ed)) =~= edict_keys(ed));
    } else {
        let key = ed[0].0;
        let rest = keys_blob(ed.drop_first());
        let blob = keys_blob(ed);
        assert(blob =~= key + seq![0u8] + rest);
        assert(forall|k: int| 0 <= k < key.len() ==> blob[k] == key[k] && blob[k] != 0);
        assert(blob[key.len() as int] == 0);
        lemma_nul_pos_from_scan(blob, 0, key.len() as int);
        assert(nul_pos(blob, 0) == key.len());
        assert(blob.take(key.len() as int) =~= key);
        assert(blob.skip(key.len() as int + 1) =~= rest);
        assert(forall|i: int|
            0 <= i < ed.drop_first().len() ==> crate::map::c_str_wf(
                (#[trigger] ed.drop_first()[i]).0,
            ));
        lemma_nul_split_keys_blob(ed.drop_first());
        assert(edict_keys(ed) =~= seq![key] + edict_keys(ed.drop_first()));
        assert(nul_split(blob) =~= edict_keys(ed));
    }
}

/// Splits a buffer at each NUL byte, dropping the empty segment after a
/// trailing terminator.
pub fn split_nul(blob: &Vec<u8>) -> (r: Vec<Vec<u8>>)
    ensures
        r@.map_values(|v: Vec<u8>| v@) == nul_split(blob@),
{
    let ghost whole = blob@;
    let mut out: Vec<Vec<u8>> = Vec::new();
    let mut cur: Vec<u8> = Vec::new();
    let mut seg_start: usize = 0;
    let mut i: usize = 0;
    proof {
        assert(whole.skip(0) =~= whole);
        assert(out@.map_values(|v: Vec<u8>| v@) =~= Seq::<Seq<u8>>::empty());
    }
    while i < blob.len()
        invariant
            seg_start <= i <= blob@.len(),
            cur@ == blob@.subrange(seg_start as int, i as int),
            forall|k: int| seg_start <= k < i ==> blob@[k] != 0,
            out@.map_values(|v: Vec<u8>| v@) + nul_split(blob@.skip(seg_start as int))
                == nul_split(blob@),
        decreases blob@.len() - i,
    {
        let b = blob[i];
        if b == 0 {
            proof {
                let tail = blob@.skip(seg_start as int);
                assert(forall|k: int|
                    0 <= k < i - seg_start ==> tail[k] == blob@[seg_start + k] && tail[k] != 0);
                lemma_nul_pos_from_scan(tail, 0, i - seg_start);
                assert(nul_pos(tail, 0) == i - seg_start);
                assert(tail.take(i - seg_start) =~= cur@);
                assert(tail.skip(i - seg_start + 1) =~= blob@.skip(i + 1));
                assert(nul_split(tail) =~= seq![cur@] + nul_split(blob@.skip(i + 1)));
            }
            out.push(cur);
            proof {
                assert(out@.map_values(|v: Vec<u8>| v@) =~= old_map_plus(out@, cur@));
            }
            cur = Vec::new();
            seg_start = i + 1;
        } else {
            cur.push(b);
        }
        i = i + 1;
        proof {
            assert(cur@ =~= blob@.subrange(seg_start as int, i as int));
        }
    }
    if cur.len() > 0 {
        proof {
            let tail = blob@.skip(seg_start as int);
            assert(forall|k: int|
                0 <= k < tail.len() ==> tail[k] == blob@[seg_start + k] && tail[k] != 0);
            lemma_nul_pos_from_scan(tail, 0, tail.len() as int);
            assert(nul_pos(tail, 0) == tail.len());
            assert(tail =~= cur@);
            assert(nul_split(tail) =~= seq![cur@]);
        }
        out.push(cur);
        proof {
            assert(out@.map_values(|v: Vec<u8>| v@) =~= old_map_plus(out@, cur@));
        }
    } else {
        proof {
            assert(blob@.skip(seg_start as int) =~= Seq::<u8>::empty());
            assert(nul_split(blob@.skip(seg_start as int)) =~= Seq::<Seq<u8>>::empty());
        }
    }
    proof {
        assert(out@.map_values(|v: Vec<u8>| v@) =~= nul_split(blob@));
    }
    out
}

/// The deep view of a vector of segments after the last was pushed.
spec fn old_map_plus(segments: Seq<Vec<u8>>, last: Seq<u8>) -> Seq<Seq<u8>> {
    segments.subrange(0, segments.len() - 1).map_values(|v: Vec<u8>| v@) + seq![last]
}

/// Registers the plug-in's name with the host. `init` only.
pub fn register(env: &mut InitEnv, mem: &mut GuestMem, name: &Vec<u8>) -> (r: Result<(), HostFault>)
    requires
        old(mem).spec_heap_next() + name@.len() <= u32::MAX,
    ensures
        if is_utf8(name@) {
            r is Ok && final(env).plugin_name@ == name@
        } else {
            r == Err::<(), HostFault>(HostFault::InvalidText) && *final(env) == *old(env)
        },
{
    let name_ptr = mem.reserve_bytes(name.len() as u32);
    mem.write_bytes(name_ptr, name);
    proof {
        assert(mem@.subrange(name_ptr as int, name_ptr + name@.len()) =~= name@);
    }
    abi::register(env, mem, name.len() as u32, name_ptr)
}

/// Sends an info-level message to the host's log, yielding the framed line
/// the host hands the standard output sink.
pub fn log_info<E: PluginEnv>(env: &E, mem: &mut GuestMem, mesg: &Vec<u8>) -> (r: Result<
    Vec<u8>,
    HostFault,
>)
    requires
        old(mem).spec_heap_next() + mesg@.len() <= u32::MAX,
    ensures
        if is_utf8(mesg@) {
            r matches Ok(line) && line@ == log_line(env.spec_plugin_name(), LogLevel::Info, mesg@)
        } else {
            r == Err::<Vec<u8>, HostFault>(HostFault::InvalidText)
        },
{
    let mesg_ptr = mem.reserve_bytes(mesg.len() as u32);
    mem.write_bytes(mesg_ptr, mesg);
    proof {
        assert(mem@.subrange(mesg_ptr as int, mesg_ptr + mesg@.len()) =~= mesg@);
    }
    abi::log_info(env, mem, mesg.len() as u32, mesg_ptr)
}

/// Sends an error-level message to the host's log, yielding the framed
/// line the host hands the standard error sink.
pub fn log_error<E: PluginEnv>(env: &E, mem: &mut GuestMem, mesg: &Vec<u8>) -> (r: Result<
    Vec<u8>,
    HostFault,
>)
    requires
        old(mem).spec_heap_next() + mesg@.len() <= u32::MAX,
    ensures
        if is_utf8(mesg@) {
            r matches Ok(line) && line@ == log_line(env.spec_plugin_name(), LogLevel::Error, mesg@)
        } else {
            r == Err::<Vec<u8>, HostFault>(HostFault::InvalidText)
        },
{
    let mesg_ptr = mem.reserve_bytes(mesg.len() as u32);
    mem.write_bytes(mesg_ptr, mesg);
    proof {
        assert(mem@.subrange(mesg_ptr as int, mesg_ptr + mesg@.len()) =~= mesg@);
    }
    abi::log_error(env, mem, mesg.len() as u32, mesg_ptr)
}

/// The number of entities in the map. `process` only.
pub fn ehandle_count(env: &ProcessEnv) -> (r: u32)
    requires
        env.map.wf(),
    ensures
        r == env.map.entities@.len(),
{
    match abi::ehandle_count(env) {
        Ok(n) => n,
        Err(_) => {
            proof {
                assert(false);
            }
            0
        },
    }
}

/// The number of brushes entity `ehandle` bears: zero for a point entity.
pub fn bhandle_count(env: &ProcessEnv, mem: &mut GuestMem, ehandle: u32) -> (r: Result<
    u32,
    LowApiCode,
>)
    requires
        env.map.wf(),
        old(mem).spec_heap_next() + 4 <= u32::MAX,
    ensures
        match spec_get_entity(env.map, ehandle) {
            Err(code) => r == Err::<u32, LowApiCode>(code),
            Ok(entity) => r matches Ok(count) && count == entity.spec_brush_count(),
        },
{
    let out_ptr = mem.reserve_bytes(4);
    proof {
        vstd::bytes::lemma_auto_spec_u32_to_from_le_bytes();
    }
    match abi::bhandle_count(env, mem, ehandle, out_ptr) {
        Ok(LowApiCode::Success) => Ok(read_le32(mem, out_ptr)),
        Ok(code) => Err(code),
        Err(_) => {
            proof {
                assert(false);
            }
            Err(LowApiCode::EntityLookupError)
        },
    }
}

/// The number of surfaces of brush `(ehandle, brush_idx)`.
pub fn shandle_count(env: &ProcessEnv, mem: &mut GuestMem, ehandle: u32, brush_idx: u32) -> (r:
    Result<u32, LowApiCode>)
    requires
        env.map.wf(),
        old(mem).spec_heap_next() + 4 <= u32::MAX,
    ensures
        match spec_get_brush(env.map, ehandle, brush_idx) {
            Err(code) => r == Err::<u32, LowApiCode>(code),
            Ok(brush) => r matches Ok(count) && count == brush.surfaces@.len(),
        },
{
    let out_ptr = mem.reserve_bytes(4);
    proof {
        vstd::bytes::lemma_auto_spec_u32_to_from_le_bytes();
    }
    match abi::shandle_count(env, mem, ehandle, brush_idx, out_ptr) {
        Ok(LowApiCode::Success) => Ok(read_le32(mem, out_ptr)),
        Ok(code) => Err(code),
        Err(_) => {
            proof {
                assert(false);
            }
            Err(LowApiCode::EntityLookupError)
        },
    }
}

/// Reads the value stored under `key` in entity `ehandle`'s edict, without
/// its wire terminator. A missing key is reported as `KeyLookupError`.
pub fn read_keyvalue(env: &mut ProcessEnv, mem: &mut GuestMem, ehandle: u32, key: &Vec<u8>) -> (r:
    Result<Vec<u8>, LowApiCode>)
    requires
        old(env).map.wf(),
        old(env).keyvalue_read_transaction.is_closed(),
        forall|k: int| 0 <= k < key@.len() ==> key@[k] != 0,
        old(mem).spec_heap_next() + key@.len() + 5 + kv_payload_size(
            old(env).map,
            ehandle,
            key@,
        ) <= u32::MAX,
    ensures
        *final(env) == *old(env),
        match spec_get_entity(old(env).map, ehandle) {
            Err(code) => r == Err::<Vec<u8>, LowApiCode>(code),
            Ok(entity) => match edict_lookup(entity.spec_edict()@, key@) {
                None => r == Err::<Vec<u8>, LowApiCode>(LowApiCode::KeyLookupError),
                Some(value) => r matches Ok(v) && v@ == value,
            },
        },
{
    let key_ptr = mem.reserve_bytes((key.len() + 1) as u32);
    let size_ptr = mem.reserve_bytes(4);
    let key_wire = bytes_with_nul(key);
    mem.write_bytes(key_ptr, &key_wire);
    proof {
        let wire = key_wire@;
        assert forall|k: int| key_ptr <= k < key_ptr + key@.len() implies mem@[k] != 0 by {
            assert(mem@[key_ptr + (k - key_ptr)] == wire[k - key_ptr]);
        }
        assert(mem@[key_ptr + key@.len() as int] == wire[key@.len() as int]);
        lemma_nul_pos_from_scan(mem@, key_ptr as int, key_ptr + key@.len());
        assert(nul_pos(mem@, key_ptr as int) == key_ptr + key@.len());
        crate::mem::lemma_subrange_of_written(mem@, key_ptr as int, wire, 0, key@.len() as int);
        assert(wire.subrange(0, key@.len() as int) =~= key@);
        vstd::bytes::lemma_auto_spec_u32_to_from_le_bytes();
    }
    match abi::keyvalue_init_read(env, mem, ehandle, key_ptr, size_ptr) {
        Ok(LowApiCode::Success) => {},
        Ok(code) => {
            proof {
                Transaction::<Vec<u8>>::lemma_closed_slots_equal(
                    env.keyvalue_read_transaction,
                    old(env).keyvalue_read_transaction,
                );
            }
            return Err(code);
        },
        Err(_) => {
            proof {
                assert(false);
            }
            return Err(LowApiCode::EntityLookupError);
        },
    }
    let size = read_le32(mem, size_ptr);
    let val_ptr = mem.reserve_bytes(size);
    match abi::keyvalue_read(env, mem, val_ptr) {
        Ok(_) => {},
        Err(_) => {
            proof {
                assert(false);
            }
            return Err(LowApiCode::EntityLookupError);
        },
    }
    let value = mem.read_bytes(val_ptr, size - 1);
    proof {
        let entity = spec_get_entity(old(env).map, ehandle)->Ok_0;
        let stored = edict_lookup(entity.spec_edict()@, key@)->Some_0;
        let written = mem@.subrange(val_ptr as int, val_ptr + size as int);
        assert(forall|j: int| 0 <= j < size - 1 ==> mem@[val_ptr + j] == written[j]);
        assert(value@ =~= stored);
        Transaction::<Vec<u8>>::lemma_closed_slots_equal(
            env.keyvalue_read_transaction,
            old(env).keyvalue_read_transaction,
        );
    }
    Ok(value)
}

/// Reads every key of entity `ehandle`'s edict, in insertion order.
pub fn read_keys(env: &mut ProcessEnv, mem: &mut GuestMem, ehandle: u32) -> (r: Result<
    Vec<Vec<u8>>,
    LowApiCode,
>)
    requires
        old(env).map.wf(),
        old(env).keys_read_transaction.is_closed(),
        old(mem).spec_heap_next() + 4 + keys_payload_size(old(env).map, ehandle) <= u32::MAX,
    ensures
        *final(env) == *old(env),
        match spec_get_entity(old(env).map, ehandle) {
            Err(code) => r == Err::<Vec<Vec<u8>>, LowApiCode>(code),
            Ok(entity) => (r matches Ok(keys) && keys@.map_values(|v: Vec<u8>| v@) == edict_keys(
                entity.spec_edict()@,
            )),
        },
{
    let size_ptr = mem.reserve_bytes(4);
    proof {
        vstd::bytes::lemma_auto_spec_u32_to_from_le_bytes();
    }
    match abi::keys_init_read(env, mem, ehandle, size_ptr) {
        Ok(LowApiCode::Success) => {},
        Ok(code) => {
            proof {
                Transaction::<Vec<u8>>::lemma_closed_slots_equal(
                    env.keys_read_transaction,
                    old(env).keys_read_transaction,
                );
            }
            return Err(code);
        },
        Err(_) => {
            proof {
                assert(false);
            }
            return Err(LowApiCode::EntityLookupError);
        },
    }
    let size = read_le32(mem, size_ptr);
    let keys_ptr = mem.reserve_bytes(size);
    match abi::keys_read(env, mem, keys_ptr) {
        Ok(_) => {},
        Err(_) => {
            proof {
                assert(false);
            }
            return Err(LowApiCode::EntityLookupError);
        },
    }
    let blob = mem.read_bytes(keys_ptr, size);
    let keys = split_nul(&blob);
    proof {
        let entity = spec_get_entity(old(env).map, ehandle)->Ok_0;
        assert(blob@ =~= keys_blob(entity.spec_edict()@));
        lemma_nul_split_keys_blob(entity.spec_edict()@);
        Transaction::<Vec<u8>>::lemma_closed_slots_equal(
            env.keys_read_transaction,
            old(env).keys_read_transaction,
        );
    }
    Ok(keys)
}

/// Reads the texture name of surface `(ehandle, brush_idx, surface_idx)`,
/// without its wire terminator.
pub fn read_texture(
    env: &mut ProcessEnv,
    mem: &mut GuestMem,
    ehandle: u32,
    brush_idx: u32,
    surface_idx: u32,
) -> (r: Result<Vec<u8>, LowApiCode>)
    requires
        old(env).map.wf(),
        old(env).texture_read_transaction.is_closed(),
        old(mem).spec_heap_next() + 4 + texture_payload_size(
            old(env).map,
            ehandle,
            brush_idx,
            surface_idx,
        ) <= u32::MAX,
    ensures
        *final(env) == *old(env),
        match spec_get_surface(old(env).map, ehandle, brush_idx, surface_idx) {
            Err(code) => r == Err::<Vec<u8>, LowApiCode>(code),
            Ok(surface) => (r matches Ok(texture) && texture@ == surface.texture@),
        },
{
    let size_ptr = mem.reserve_bytes(4);
    proof {
        vstd::bytes::lemma_auto_spec_u32_to_from_le_bytes();
    }
    match abi::texture_init_read(env, mem, ehandle, brush_idx, surface_idx, size_ptr) {
        Ok(LowApiCode::Success) => {},
        Ok(code) => {
            proof {
                Transaction::<Vec<u8>>::lemma_closed_slots_equal(
                    env.texture_read_transaction,
                    old(env).texture_read_transaction,
                );
            }
            return Err(code);
        },
        Err(_) => {
            proof {
                assert(false);
            }
            return Err(LowApiCode::EntityLookupError);
        },
    }
    let size = read_le32(mem, size_ptr);
    let texture_ptr = mem.reserve_bytes(size);
    match abi::texture_read(env, mem, texture_ptr) {
        Ok(_) => {},
        Err(_) => {
            proof {
                assert(false);
            }
            return Err(LowApiCode::EntityLookupError);
        },
    }
    let texture = mem.read_bytes(texture_ptr, size - 1);
    proof {
        let surface = spec_get_surface(old(env).map, ehandle, brush_idx, surface_idx)->Ok_0;
        let written = mem@.subrange(texture_ptr as int, texture_ptr + size as int);
        assert(forall|j: int| 0 <= j < size - 1 ==> mem@[texture_ptr + j] == written[j]);
        assert(texture@ =~= surface.texture@);
        Transaction::<Vec<u8>>::lemma_closed_slots_equal(
            env.texture_read_transaction,
            old(env).texture_read_transaction,
        );
    }
    Ok(texture)
}

/// Reads the surface's half-space: the wire's nine little-endian floats,
/// decoded back to the exact source bit patterns.
pub fn read_half_space(
    env: &ProcessEnv,
    mem: &mut GuestMem,
    ehandle: u32,
    brush_idx: u32,
    surface_idx: u32,
) -> (r: Result<HalfSpace, LowApiCode>)
    requires
        env.map.wf(),
        old(mem).spec_heap_next() + 72 <= u32::MAX,
    ensures
        match spec_get_surface(env.map, ehandle, brush_idx, surface_idx) {
            Err(code) => r == Err::<HalfSpace, LowApiCode>(code),
            Ok(surface) => r == Ok::<HalfSpace, LowApiCode>(surface.half_space),
        },
{
    let ptr = mem.reserve_bytes(72);
    proof {
        crate::map::lemma_wire_lengths();
    }
    match abi::half_space_read(env, mem, ehandle, brush_idx, surface_idx, ptr) {
        Ok(LowApiCode::Success) => {},
        Ok(code) => {
            return Err(code);
        },
        Err(_) => {
            proof {
                assert(false);
            }
            return Err(LowApiCode::EntityLookupError);
        },
    }
    proof {
        vstd::bytes::lemma_auto_spec_u64_to_from_le_bytes();
        let surface = spec_get_surface(env.map, ehandle, brush_idx, surface_idx)->Ok_0;
        let h = surface.half_space;
        let data = crate::map::half_space_le_bytes(h);
        crate::map::lemma_half_space_chunks(h);
        crate::mem::lemma_subrange_of_written(mem@, ptr as int, data, 0, 8);
        crate::mem::lemma_subrange_of_written(mem@, ptr as int, data, 8, 16);
        crate::mem::lemma_subrange_of_written(mem@, ptr as int, data, 16, 24);
        crate::mem::lemma_subrange_of_written(mem@, ptr as int, data, 24, 32);
        crate::mem::lemma_subrange_of_written(mem@, ptr as int, data, 32, 40);
        crate::mem::lemma_subrange_of_written(mem@, ptr as int, data, 40, 48);
        crate::mem::lemma_subrange_of_written(mem@, ptr as int, data, 48, 56);
        crate::mem::lemma_subrange_of_written(mem@, ptr as int, data, 56, 64);
        crate::mem::lemma_subrange_of_written(mem@, ptr as int, data, 64, 72);
    }
    let p0 = Vec3 { x: read_le64(mem, ptr), y: read_le64(mem, ptr + 8), z: read_le64(mem, ptr + 16) };
    let p1 = Vec3 {
        x: read_le64(mem, ptr + 24),
        y: read_le64(mem, ptr + 32),
        z: read_le64(mem, ptr + 40),
    };
    let p2 = Vec3 {
        x: read_le64(mem, ptr + 48),
        y: read_le64(mem, ptr + 56),
        z: read_le64(mem, ptr + 64),
    };
    Ok(HalfSpace { p0, p1, p2 })
}

/// Reads the surface's alignment: the base read followed by the axes read,
/// assembled into the tagged form the map holds.
pub fn read_alignment(
    env: &ProcessEnv,
    mem: &mut GuestMem,
    ehandle: u32,
    brush_idx: u32,
    surface_idx: u32,
) -> (r: Result<Alignment, LowApiCode>)
    requires
        env.map.wf(),
        old(mem).spec_heap_next() + 88 <= u32::MAX,
    ensures
        match spec_get_surface(env.map, ehandle, brush_idx, surface_idx) {
            Err(code) => r == Err::<Alignment, LowApiCode>(code),
            Ok(surface) => r == Ok::<Alignment, LowApiCode>(surface.alignment),
        },
{
    let base_ptr = mem.reserve_bytes(40);
    proof {
        crate::map::lemma_wire_lengths();
    }
    match abi::texture_alignment_read(env, mem, ehandle, brush_idx, surface_idx, base_ptr) {
        Ok(LowApiCode::Success) => {},
        Ok(code) => {
            return Err(code);
        },
        Err(_) => {
            proof {
                assert(false);
            }
            return Err(LowApiCode::EntityLookupError);
        },
    }
    proof {
        vstd::bytes::lemma_auto_spec_u64_to_from_le_bytes();
        let surface = spec_get_surface(env.map, ehandle, brush_idx, surface_idx)->Ok_0;
        let b = surface.alignment.spec_base();
        let data = crate::map::base_alignment_le_bytes(b);
        crate::map::lemma_base_alignment_chunks(b);
        crate::mem::lemma_subrange_of_written(mem@, base_ptr as int, data, 0, 8);
        crate::mem::lemma_subrange_of_written(mem@, base_ptr as int, data, 8, 16);
        crate::mem::lemma_subrange_of_written(mem@, base_ptr as int, data, 16, 24);
        crate::mem::lemma_subrange_of_written(mem@, base_ptr as int, data, 24, 32);
        crate::mem::lemma_subrange_of_written(mem@, base_ptr as int, data, 32, 40);
    }
    let base = BaseAlignment {
        offset_x: read_le64(mem, base_ptr),
        offset_y: read_le64(mem, base_ptr + 8),
        rotation: read_le64(mem, base_ptr + 16),
        scale_x: read_le64(mem, base_ptr + 24),
        scale_y: read_le64(mem, base_ptr + 32),
    };
    let axes_ptr = mem.reserve_bytes(48);
    match abi::texture_axes_read(env, mem, ehandle, brush_idx, surface_idx, axes_ptr) {
        Ok(LowApiCode::Success) => {
            proof {
                vstd::bytes::lemma_auto_spec_u64_to_from_le_bytes();
                let surface = spec_get_surface(env.map, ehandle, brush_idx, surface_idx)->Ok_0;
                let axes = surface.alignment->Valve220_1;
                let data = crate::map::axes_le_bytes(axes);
                crate::map::lemma_axes_chunks(axes);
                crate::mem::lemma_subrange_of_written(mem@, axes_ptr as int, data, 0, 8);
                crate::mem::lemma_subrange_of_written(mem@, axes_ptr as int, data, 8, 16);
                crate::mem::lemma_subrange_of_written(mem@, axes_ptr as int, data, 16, 24);
                crate::mem::lemma_subrange_of_written(mem@, axes_ptr as int, data, 24, 32);
                crate::mem::lemma_subrange_of_written(mem@, axes_ptr as int, data, 32, 40);
                crate::mem::lemma_subrange_of_written(mem@, axes_ptr as int, data, 40, 48);
            }
            let u = Vec3 {
                x: read_le64(mem, axes_ptr),
                y: read_le64(mem, axes_ptr + 8),
                z: read_le64(mem, axes_ptr + 16),
            };
            let v = Vec3 {
                x: read_le64(mem, axes_ptr + 24),
                y: read_le64(mem, axes_ptr + 32),
                z: read_le64(mem, axes_ptr + 40),
            };
            Ok(Alignment::Valve220(base, TextureAxes { u, v }))
        },
        Ok(LowApiCode::NoAxesError) => Ok(Alignment::Standard(base)),
        Ok(_) => {
            proof {
                assert(false);
            }
            Err(LowApiCode::EntityLookupError)
        },
        Err(_) => {
            proof {
                assert(false);
            }
            Err(LowApiCode::EntityLookupError)
        },
    }
}

} // verus!
