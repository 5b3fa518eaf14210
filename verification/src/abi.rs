//! The ABI surface: the imported functions the guest may call.
//!
//! Every import takes 32-bit scalars. Counts are returned as a status with
//! the count written through an out-pointer; reads return a status and move
//! their bytes through linear memory, the variable-sized ones in two phases
//! through a transaction slot. Map-lookup failures and the missing-axes case
//! are reported as status codes; every other failure is a [`HostFault`] and
//! aborts the guest.

use vstd::prelude::*;

use vstd::bytes::spec_u32_to_le_bytes;
use vstd::bytes::u32_to_le_bytes;

use crate::map::base_alignment_le_bytes;
use crate::map::base_alignment_payload;
use crate::map::axes_le_bytes;
use crate::map::axes_payload;
use crate::map::build_keys_blob;
use crate::map::edict_lookup;
use crate::map::half_space_le_bytes;
use crate::map::half_space_payload;
use crate::map::keys_blob;
use crate::map::spec_get_brush;
use crate::map::spec_get_entity;
use crate::map::spec_get_surface;
use crate::map::Alignment;
use crate::map::QuakeMap;
use crate::mem::bytes_with_nul;
use crate::mem::mem_wrote;
use crate::mem::nul_pos;
use crate::mem::GuestMem;
use crate::status::HostFault;
use crate::status::LowApiCode;
use crate::text::check_utf8;
use crate::text::format_log_line;
use crate::text::is_utf8;
use crate::text::log_line;
use crate::text::LogLevel;
use crate::transaction::Transaction;

verus! {

/// What every hook's environment offers: the plug-in name used to prefix
/// log lines.
pub trait PluginEnv {
    /// The name as the contracts see it.
    spec fn spec_plugin_name(&self) -> Seq<u8>;

    /// Borrows the stored name.
    fn plugin_name(&self) -> (r: &Vec<u8>)
        ensures
            r@ == self.spec_plugin_name(),
    ;
}

/// The environment of an `init` hook: the guest has no map yet, only a
/// name to register.
pub struct InitEnv {
    pub plugin_name: Vec<u8>,
}

impl InitEnv {
    pub fn new(plugin_name: Vec<u8>) -> (env: InitEnv)
        ensures
            env.plugin_name == plugin_name,
    {
        InitEnv { plugin_name }
    }
}

impl PluginEnv for InitEnv {
    open spec fn spec_plugin_name(&self) -> Seq<u8> {
        self.plugin_name@
    }

    fn plugin_name(&self) -> (r: &Vec<u8>) {
        &self.plugin_name
    }
}

/// The environment of a `process` hook: the parsed map, shared read-only
/// with every import, and one fresh transaction slot per variable-size
/// read family.
pub struct ProcessEnv {
    pub plugin_name: Vec<u8>,
    pub map: QuakeMap,
    pub keyvalue_read_transaction: Transaction<Vec<u8>>,
    pub keys_read_transaction: Transaction<Vec<u8>>,
    pub texture_read_transaction: Transaction<Vec<u8>>,
}

impl ProcessEnv {
    /// A fresh environment: all three slots closed, as they must be at
    /// hook entry.
    pub fn new(map: QuakeMap, plugin_name: Vec<u8>) -> (env: ProcessEnv)
        ensures
            env.map == map,
            env.plugin_name == plugin_name,
            env.keyvalue_read_transaction.is_closed(),
            env.keys_read_transaction.is_closed(),
            env.texture_read_transaction.is_closed(),
    {
        ProcessEnv {
            plugin_name,
            map,
            keyvalue_read_transaction: Transaction::new(),
            keys_read_transaction: Transaction::new(),
            texture_read_transaction: Transaction::new(),
        }
    }
}

impl PluginEnv for ProcessEnv {
    open spec fn spec_plugin_name(&self) -> Seq<u8> {
        self.plugin_name@
    }

    fn plugin_name(&self) -> (r: &Vec<u8>) {
        &self.plugin_name
    }
}

/// Everything but the key-value slot is as it was.
pub open spec fn env_same_but_kv(pre: ProcessEnv, post: ProcessEnv) -> bool {
    &&& post.plugin_name == pre.plugin_name
    &&& post.map == pre.map
    &&& post.keys_read_transaction == pre.keys_read_transaction
    &&& post.texture_read_transaction == pre.texture_read_transaction
}

/// Everything but the keys slot is as it was.
pub open spec fn env_same_but_keys(pre: ProcessEnv, post: ProcessEnv) -> bool {
    &&& post.plugin_name == pre.plugin_name
    &&& post.map == pre.map
    &&& post.keyvalue_read_transaction == pre.keyvalue_read_transaction
    &&& post.texture_read_transaction == pre.texture_read_transaction
}

/// Everything but the texture slot is as it was.
pub open spec fn env_same_but_texture(pre: ProcessEnv, post: ProcessEnv) -> bool {
    &&& post.plugin_name == pre.plugin_name
    &&& post.map == pre.map
    &&& post.keyvalue_read_transaction == pre.keyvalue_read_transaction
    &&& post.keys_read_transaction == pre.keys_read_transaction
}

/// How many entities the map holds. `process` only.
pub fn ehandle_count(env: &ProcessEnv) -> (r: Result<u32, HostFault>)
    ensures
        if env.map.entities@.len() <= u32::MAX {
            r == Ok::<u32, HostFault>(env.map.entities@.len() as u32)
        } else {
            r == Err::<u32, HostFault>(HostFault::PayloadTooLarge)
        },
{
    let n = env.map.entities.len();
    if n <= u32::MAX as usize {
        Ok(n as u32)
    } else {
        Err(HostFault::PayloadTooLarge)
    }
}

/// What `bhandle_count` leaves behind.
pub open spec fn bhandle_count_post(
    env: ProcessEnv,
    pre_mem: GuestMem,
    mem: GuestMem,
    ehandle: u32,
    out_ptr: u32,
    r: Result<LowApiCode, HostFault>,
) -> bool {
    match spec_get_entity(env.map, ehandle) {
        Err(code) => r == Ok::<LowApiCode, HostFault>(code) && mem == pre_mem,
        Ok(entity) => {
            let count = entity.spec_brush_count();
            if count > u32::MAX {
                r == Err::<LowApiCode, HostFault>(HostFault::PayloadTooLarge) && mem == pre_mem
            } else if out_ptr + 4 <= pre_mem@.len() {
                r == Ok::<LowApiCode, HostFault>(LowApiCode::Success) && mem_wrote(
                    pre_mem,
                    mem,
                    out_ptr,
                    spec_u32_to_le_bytes(count as u32),
                )
            } else {
                r == Err::<LowApiCode, HostFault>(HostFault::OutOfBounds) && mem == pre_mem
            }
        },
    }
}

/// Writes entity `ehandle`'s brush count at `out_ptr`: zero for a point
/// entity, per the canonical choice.
pub fn bhandle_count(
    env: &ProcessEnv,
    mem: &mut GuestMem,
    ehandle: u32,
    out_ptr: u32,
) -> (r: Result<LowApiCode, HostFault>)
    ensures
        bhandle_count_post(*env, *old(mem), *final(mem), ehandle, out_ptr, r),
{
    let entity = match env.map.get_entity(ehandle) {
        Err(code) => {
            return Ok(code);
        },
        Ok(entity) => entity,
    };
    let count = entity.brush_count();
    if count > u32::MAX as usize {
        return Err(HostFault::PayloadTooLarge);
    }
    proof {
        vstd::bytes::lemma_auto_spec_u32_to_from_le_bytes();
    }
    let count_bytes = u32_to_le_bytes(count as u32);
    match mem.send_bytes(out_ptr, &count_bytes) {
        Ok(_) => Ok(LowApiCode::Success),
        Err(fault) => Err(fault),
    }
}

/// What `shandle_count` leaves behind.
pub open spec fn shandle_count_post(
    env: ProcessEnv,
    pre_mem: GuestMem,
    mem: GuestMem,
    ehandle: u32,
    brush_idx: u32,
    out_ptr: u32,
    r: Result<LowApiCode, HostFault>,
) -> bool {
    match spec_get_brush(env.map, ehandle, brush_idx) {
        Err(code) => r == Ok::<LowApiCode, HostFault>(code) && mem == pre_mem,
        Ok(brush) => {
            let count = brush.surfaces@.len();
            if count > u32::MAX {
                r == Err::<LowApiCode, HostFault>(HostFault::PayloadTooLarge) && mem == pre_mem
            } else if out_ptr + 4 <= pre_mem@.len() {
                r == Ok::<LowApiCode, HostFault>(LowApiCode::Success) && mem_wrote(
                    pre_mem,
                    mem,
                    out_ptr,
                    spec_u32_to_le_bytes(count as u32),
                )
            } else {
                r == Err::<LowApiCode, HostFault>(HostFault::OutOfBounds) && mem == pre_mem
            }
        },
    }
}

/// Writes the surface count of `(ehandle, brush_idx)` at `out_ptr`.
pub fn shandle_count(
    env: &ProcessEnv,
    mem: &mut GuestMem,
    ehandle: u32,
    brush_idx: u32,
    out_ptr: u32,
) -> (r: Result<LowApiCode, HostFault>)
    ensures
        shandle_count_post(*env, *old(mem), *final(mem), ehandle, brush_idx, out_ptr, r),
{
    let brush = match env.map.get_brush(ehandle, brush_idx) {
        Err(code) => {
            return Ok(code);
        },
        Ok(brush) => brush,
    };
    let count = brush.surfaces.len();
    if count > u32::MAX as usize {
        return Err(HostFault::PayloadTooLarge);
    }
    proof {
        vstd::bytes::lemma_auto_spec_u32_to_from_le_bytes();
    }
    let count_bytes = u32_to_le_bytes(count as u32);
    match mem.send_bytes(out_ptr, &count_bytes) {
        Ok(_) => Ok(LowApiCode::Success),
        Err(fault) => Err(fault),
    }
}

/// Whether the entity handle is in range: `1` or `0`.
pub fn entity_exists(env: &ProcessEnv, ehandle: u32) -> (r: Result<u32, HostFault>)
    ensures
        if env.map.entities@.len() <= u32::MAX {
            r == Ok::<u32, HostFault>(
                if ehandle < env.map.entities@.len() {
                    1u32
                } else {
                    0u32
                },
            )
        } else {
            r == Err::<u32, HostFault>(HostFault::PayloadTooLarge)
        },
{
    let count = ehandle_count(env)?;
    Ok(if ehandle < count {
        1
    } else {
        0
    })
}

/// What `brush_exists` returns.
pub open spec fn brush_exists_post(
    env: ProcessEnv,
    ehandle: u32,
    brush_idx: u32,
    r: Result<u32, HostFault>,
) -> bool {
    match spec_get_entity(env.map, ehandle) {
        Err(code) => r == Err::<u32, HostFault>(HostFault::LookupFailure(code)),
        Ok(entity) => {
            if entity.spec_brush_count() > u32::MAX {
                r == Err::<u32, HostFault>(HostFault::PayloadTooLarge)
            } else {
                r == Ok::<u32, HostFault>(
                    if brush_idx < entity.spec_brush_count() {
                        1u32
                    } else {
                        0u32
                    },
                )
            }
        },
    }
}

/// Whether the brush index is in range for the entity: `1` or `0`. A bad
/// entity handle has no status channel here and aborts.
pub fn brush_exists(env: &ProcessEnv, ehandle: u32, brush_idx: u32) -> (r: Result<u32, HostFault>)
    ensures
        brush_exists_post(*env, ehandle, brush_idx, r),
{
    let entity = match env.map.get_entity(ehandle) {
        Err(code) => {
            return Err(HostFault::LookupFailure(code));
        },
        Ok(entity) => entity,
    };
    let count = entity.brush_count();
    if count > u32::MAX as usize {
        return Err(HostFault::PayloadTooLarge);
    }
    Ok(
        if brush_idx < count as u32 {
            1
        } else {
            0
        },
    )
}

/// What `surface_exists` returns.
pub open spec fn surface_exists_post(
    env: ProcessEnv,
    ehandle: u32,
    brush_idx: u32,
    surface_idx: u32,
    r: Result<u32, HostFault>,
) -> bool {
    match spec_get_brush(env.map, ehandle, brush_idx) {
        Err(code) => r == Err::<u32, HostFault>(HostFault::LookupFailure(code)),
        Ok(brush) => {
            if brush.surfaces@.len() > u32::MAX {
                r == Err::<u32, HostFault>(HostFault::PayloadTooLarge)
            } else {
                r == Ok::<u32, HostFault>(
                    if surface_idx < brush.surfaces@.len() {
                        1u32
                    } else {
                        0u32
                    },
                )
            }
        },
    }
}

/// Whether the surface index is in range for the brush: `1` or `0`. A bad
/// entity or brush level has no status channel here and aborts.
pub fn surface_exists(
    env: &ProcessEnv,
    ehandle: u32,
    brush_idx: u32,
    surface_idx: u32,
) -> (r: Result<u32, HostFault>)
    ensures
        surface_exists_post(*env, ehandle, brush_idx, surface_idx, r),
{
    let brush = match env.map.get_brush(ehandle, brush_idx) {
        Err(code) => {
            return Err(HostFault::LookupFailure(code));
        },
        Ok(brush) => brush,
    };
    let count = brush.surfaces.len();
    if count > u32::MAX as usize {
        return Err(HostFault::PayloadTooLarge);
    }
    Ok(
        if surface_idx < count as u32 {
            1
        } else {
            0
        },
    )
}

/// What `keyvalue_init_read` leaves behind.
pub open spec fn keyvalue_init_read_post(
    pre: ProcessEnv,
    pre_mem: GuestMem,
    env: ProcessEnv,
    mem: GuestMem,
    ehandle: u32,
    key_ptr: u32,
    size_ptr: u32,
    r: Result<LowApiCode, HostFault>,
) -> bool {
    &&& env_same_but_kv(pre, env)
    &&& match spec_get_entity(pre.map, ehandle) {
        Err(code) => {
            &&& r == Ok::<LowApiCode, HostFault>(code)
            &&& mem == pre_mem
            &&& env == pre
        },
        Ok(entity) => {
            let p = nul_pos(pre_mem@, key_ptr as int);
            if p >= pre_mem@.len() {
                &&& r == Err::<LowApiCode, HostFault>(HostFault::OutOfBounds)
                &&& mem == pre_mem
                &&& env == pre
            } else {
                let key = pre_mem@.subrange(key_ptr as int, p);
                match edict_lookup(entity.spec_edict()@, key) {
                    None => {
                        &&& r == Ok::<LowApiCode, HostFault>(LowApiCode::KeyLookupError)
                        &&& mem == pre_mem
                        &&& env == pre
                    },
                    Some(value) => {
                        if value.len() + 1 > u32::MAX {
                            &&& r == Err::<LowApiCode, HostFault>(HostFault::PayloadTooLarge)
                            &&& mem == pre_mem
                            &&& env == pre
                        } else if size_ptr + 4 > pre_mem@.len() {
                            &&& r == Err::<LowApiCode, HostFault>(HostFault::OutOfBounds)
                            &&& mem == pre_mem
                            &&& env == pre
                        } else {
                            &&& mem_wrote(
                                pre_mem,
                                mem,
                                size_ptr,
                                spec_u32_to_le_bytes((value.len() + 1) as u32),
                            )
                            &&& if pre.keyvalue_read_transaction.is_open() {
                                &&& r == Err::<LowApiCode, HostFault>(HostFault::TransactionOpen)
                                &&& env == pre
                            } else {
                                &&& r == Ok::<LowApiCode, HostFault>(LowApiCode::Success)
                                &&& env.keyvalue_read_transaction.is_open()
                                &&& env.keyvalue_read_transaction.payload()@ == value + seq![0u8]
                            }
                        }
                    },
                }
            }
        },
    }
}

/// First phase of a key-value read: looks the key up, reports the value's
/// wire size (terminator included) at `size_ptr`, and stages the value.
/// A missing key is ordinary and reported as a status; a malformed key
/// pointer is fatal.
pub fn keyvalue_init_read(
    env: &mut ProcessEnv,
    mem: &mut GuestMem,
    ehandle: u32,
    key_ptr: u32,
    size_ptr: u32,
) -> (r: Result<LowApiCode, HostFault>)
    ensures
        keyvalue_init_read_post(
            *old(env),
            *old(mem),
            *final(env),
            *final(mem),
            ehandle,
            key_ptr,
            size_ptr,
            r,
        ),
{
    let entity = match env.map.get_entity(ehandle) {
        Err(code) => {
            return Ok(code);
        },
        Ok(entity) => entity,
    };
    let key = match mem.recv_c_string(key_ptr) {
        Ok(key) => key,
        Err(fault) => {
            return Err(fault);
        },
    };
    let value = match entity.edict().get(&key) {
        None => {
            return Ok(LowApiCode::KeyLookupError);
        },
        Some(value) => value,
    };
    if value.len() >= u32::MAX as usize {
        return Err(HostFault::PayloadTooLarge);
    }
    let size: u32 = (value.len() + 1) as u32;
    let payload = bytes_with_nul(value);
    proof {
        vstd::bytes::lemma_auto_spec_u32_to_from_le_bytes();
    }
    let size_bytes = u32_to_le_bytes(size);
    match mem.send_bytes(size_ptr, &size_bytes) {
        Ok(_) => {},
        Err(fault) => {
            return Err(fault);
        },
    }
    match env.keyvalue_read_transaction.open(payload) {
        Ok(_) => Ok(LowApiCode::Success),
        Err(_) => Err(HostFault::TransactionOpen),
    }
}

/// What the second phase of any variable-size read leaves behind, over the
/// family's slot.
pub open spec fn payload_read_post(
    pre_slot: Transaction<Vec<u8>>,
    post_slot: Transaction<Vec<u8>>,
    pre_mem: GuestMem,
    mem: GuestMem,
    ptr: u32,
    r: Result<(), HostFault>,
) -> bool {
    if pre_slot.is_closed() {
        &&& r == Err::<(), HostFault>(HostFault::TransactionClosed)
        &&& mem == pre_mem
        &&& post_slot == pre_slot
    } else {
        let payload = pre_slot.payload()@;
        &&& post_slot.is_closed()
        &&& if ptr + payload.len() <= pre_mem@.len() {
            r == Ok::<(), HostFault>(()) && mem_wrote(pre_mem, mem, ptr, payload)
        } else {
            r == Err::<(), HostFault>(HostFault::OutOfBounds) && mem == pre_mem
        }
    }
}

/// Second phase of a key-value read: writes the staged value, terminator
/// included, at `val_ptr` and closes the slot.
pub fn keyvalue_read(env: &mut ProcessEnv, mem: &mut GuestMem, val_ptr: u32) -> (r: Result<
    (),
    HostFault,
>)
    ensures
        env_same_but_kv(*old(env), *final(env)),
        payload_read_post(
            old(env).keyvalue_read_transaction,
            final(env).keyvalue_read_transaction,
            *old(mem),
            *final(mem),
            val_ptr,
            r,
        ),
{
    let payload = match env.keyvalue_read_transaction.close() {
        Err(_) => {
            return Err(HostFault::TransactionClosed);
        },
        Ok(payload) => payload,
    };
    match mem.send_bytes(val_ptr, &payload) {
        Ok(_) => Ok(()),
        Err(fault) => Err(fault),
    }
}

/// What `keys_init_read` leaves behind.
pub open spec fn keys_init_read_post(
    pre: ProcessEnv,
    pre_mem: GuestMem,
    env: ProcessEnv,
    mem: GuestMem,
    ehandle: u32,
    size_ptr: u32,
    r: Result<LowApiCode, HostFault>,
) -> bool {
    &&& env_same_but_keys(pre, env)
    &&& match spec_get_entity(pre.map, ehandle) {
        Err(code) => {
            &&& r == Ok::<LowApiCode, HostFault>(code)
            &&& mem == pre_mem
            &&& env == pre
        },
        Ok(entity) => {
            let blob = keys_blob(entity.spec_edict()@);
            if blob.len() > u32::MAX {
                &&& r == Err::<LowApiCode, HostFault>(HostFault::PayloadTooLarge)
                &&& mem == pre_mem
                &&& env == pre
            } else if size_ptr + 4 > pre_mem@.len() {
                &&& r == Err::<LowApiCode, HostFault>(HostFault::OutOfBounds)
                &&& mem == pre_mem
                &&& env == pre
            } else {
                &&& mem_wrote(pre_mem, mem, size_ptr, spec_u32_to_le_bytes(blob.len() as u32))
                &&& if pre.keys_read_transaction.is_open() {
                    &&& r == Err::<LowApiCode, HostFault>(HostFault::TransactionOpen)
                    &&& env == pre
                } else {
                    &&& r == Ok::<LowApiCode, HostFault>(LowApiCode::Success)
                    &&& env.keys_read_transaction.is_open()
                    &&& env.keys_read_transaction.payload()@ == blob
                }
            }
        },
    }
}

/// First phase of a keys read: concatenates the entity's keys as
/// NUL-separated, NUL-terminated bytes, reports the total size at
/// `size_ptr`, and stages the blob.
pub fn keys_init_read(
    env: &mut ProcessEnv,
    mem: &mut GuestMem,
    ehandle: u32,
    size_ptr: u32,
) -> (r: Result<LowApiCode, HostFault>)
    ensures
        keys_init_read_post(
            *old(env),
            *old(mem),
            *final(env),
            *final(mem),
            ehandle,
            size_ptr,
            r,
        ),
{
    let entity = match env.map.get_entity(ehandle) {
        Err(code) => {
            return Ok(code);
        },
        Ok(entity) => entity,
    };
    let blob = build_keys_blob(entity.edict());
    if blob.len() > u32::MAX as usize {
        return Err(HostFault::PayloadTooLarge);
    }
    proof {
        vstd::bytes::lemma_auto_spec_u32_to_from_le_bytes();
    }
    let size_bytes = u32_to_le_bytes(blob.len() as u32);
    match mem.send_bytes(size_ptr, &size_bytes) {
        Ok(_) => {},
        Err(fault) => {
            return Err(fault);
        },
    }
    match env.keys_read_transaction.open(blob) {
        Ok(_) => Ok(LowApiCode::Success),
        Err(_) => Err(HostFault::TransactionOpen),
    }
}

/// Second phase of a keys read: writes the staged blob at `keys_ptr` and
/// closes the slot.
pub fn keys_read(env: &mut ProcessEnv, mem: &mut GuestMem, keys_ptr: u32) -> (r: Result<
    (),
    HostFault,
>)
    ensures
        env_same_but_keys(*old(env), *final(env)),
        payload_read_post(
            old(env).keys_read_transaction,
            final(env).keys_read_transaction,
            *old(mem),
            *final(mem),
            keys_ptr,
            r,
        ),
{
    let payload = match env.keys_read_transaction.close() {
        Err(_) => {
            return Err(HostFault::TransactionClosed);
        },
        Ok(payload) => payload,
    };
    match mem.send_bytes(keys_ptr, &payload) {
        Ok(_) => Ok(()),
        Err(fault) => Err(fault),
    }
}

/// What `texture_init_read` leaves behind.
pub open spec fn texture_init_read_post(
    pre: ProcessEnv,
    pre_mem: GuestMem,
    env: ProcessEnv,
    mem: GuestMem,
    ehandle: u32,
    brush_idx: u32,
    surface_idx: u32,
    size_ptr: u32,
    r: Result<LowApiCode, HostFault>,
) -> bool {
    &&& env_same_but_texture(pre, env)
    &&& match spec_get_surface(pre.map, ehandle, brush_idx, surface_idx) {
        Err(code) => {
            &&& r == Ok::<LowApiCode, HostFault>(code)
            &&& mem == pre_mem
            &&& env == pre
        },
        Ok(surface) => {
            let texture = surface.texture@;
            if texture.len() + 1 > u32::MAX {
                &&& r == Err::<LowApiCode, HostFault>(HostFault::PayloadTooLarge)
                &&& mem == pre_mem
                &&& env == pre
            } else if size_ptr + 4 > pre_mem@.len() {
                &&& r == Err::<LowApiCode, HostFault>(HostFault::OutOfBounds)
                &&& mem == pre_mem
                &&& env == pre
            } else {
                &&& mem_wrote(
                    pre_mem,
                    mem,
                    size_ptr,
                    spec_u32_to_le_bytes((texture.len() + 1) as u32),
                )
                &&& if pre.texture_read_transaction.is_open() {
                    &&& r == Err::<LowApiCode, HostFault>(HostFault::TransactionOpen)
                    &&& env == pre
                } else {
                    &&& r == Ok::<LowApiCode, HostFault>(LowApiCode::Success)
                    &&& env.texture_read_transaction.is_open()
                    &&& env.texture_read_transaction.payload()@ == texture + seq![0u8]
                }
            }
        },
    }
}

/// First phase of a texture read: reports the texture name's wire size
/// (terminator included) at `size_ptr` and stages the name bytes.
pub fn texture_init_read(
    env: &mut ProcessEnv,
    mem: &mut GuestMem,
    ehandle: u32,
    brush_idx: u32,
    surface_idx: u32,
    size_ptr: u32,
) -> (r: Result<LowApiCode, HostFault>)
    ensures
        texture_init_read_post(
            *old(env),
            *old(mem),
            *final(env),
            *final(mem),
            ehandle,
            brush_idx,
            surface_idx,
            size_ptr,
            r,
        ),
{
    let surface = match env.map.get_surface(ehandle, brush_idx, surface_idx) {
        Err(code) => {
            return Ok(code);
        },
        Ok(surface) => surface,
    };
    if surface.texture.len() >= u32::MAX as usize {
        return Err(HostFault::PayloadTooLarge);
    }
    let size: u32 = (surface.texture.len() + 1) as u32;
    let payload = bytes_with_nul(&surface.texture);
    proof {
        vstd::bytes::lemma_auto_spec_u32_to_from_le_bytes();
    }
    let size_bytes = u32_to_le_bytes(size);
    match mem.send_bytes(size_ptr, &size_bytes) {
        Ok(_) => {},
        Err(fault) => {
            return Err(fault);
        },
    }
    match env.texture_read_transaction.open(payload) {
        Ok(_) => Ok(LowApiCode::Success),
        Err(_) => Err(HostFault::TransactionOpen),
    }
}

/// Second phase of a texture read: writes the staged name, terminator
/// included, at `texture_ptr` and closes the slot.
pub fn texture_read(env: &mut ProcessEnv, mem: &mut GuestMem, texture_ptr: u32) -> (r: Result<
    (),
    HostFault,
>)
    ensures
        env_same_but_texture(*old(env), *final(env)),
        payload_read_post(
            old(env).texture_read_transaction,
            final(env).texture_read_transaction,
            *old(mem),
            *final(mem),
            texture_ptr,
            r,
        ),
{
    let payload = match env.texture_read_transaction.close() {
        Err(_) => {
            return Err(HostFault::TransactionClosed);
        },
        Ok(payload) => payload,
    };
    match mem.send_bytes(texture_ptr, &payload) {
        Ok(_) => Ok(()),
        Err(fault) => Err(fault),
    }
}

/// What a fixed-size surface read leaves behind, given the bytes it owes.
pub open spec fn fixed_read_post(
    env: ProcessEnv,
    pre_mem: GuestMem,
    mem: GuestMem,
    lookup: Result<crate::map::Surface, LowApiCode>,
    data: Seq<u8>,
    ptr: u32,
    r: Result<LowApiCode, HostFault>,
) -> bool {
    match lookup {
        Err(code) => r == Ok::<LowApiCode, HostFault>(code) && mem == pre_mem,
        Ok(_) => {
            if ptr + data.len() <= pre_mem@.len() {
                r == Ok::<LowApiCode, HostFault>(LowApiCode::Success) && mem_wrote(
                    pre_mem,
                    mem,
                    ptr,
                    data,
                )
            } else {
                r == Err::<LowApiCode, HostFault>(HostFault::OutOfBounds) && mem == pre_mem
            }
        },
    }
}

/// Writes the surface's half-space: 9 coordinates, little-endian, 72 bytes.
pub fn half_space_read(
    env: &ProcessEnv,
    mem: &mut GuestMem,
    ehandle: u32,
    brush_idx: u32,
    surface_idx: u32,
    ptr: u32,
) -> (r: Result<LowApiCode, HostFault>)
    ensures
        ({
            let lookup = spec_get_surface(env.map, ehandle, brush_idx, surface_idx);
            fixed_read_post(
                *env,
                *old(mem),
                *final(mem),
                lookup,
                match lookup {
                    Ok(surface) => half_space_le_bytes(surface.half_space),
                    Err(_) => Seq::empty(),
                },
                ptr,
                r,
            )
        }),
{
    let surface = match env.map.get_surface(ehandle, brush_idx, surface_idx) {
        Err(code) => {
            return Ok(code);
        },
        Ok(surface) => surface,
    };
    let payload = half_space_payload(&surface.half_space);
    proof {
        crate::map::lemma_wire_lengths();
    }
    match mem.send_bytes(ptr, &payload) {
        Ok(_) => Ok(LowApiCode::Success),
        Err(fault) => Err(fault),
    }
}

/// Writes the surface's base alignment: offset, rotation, scale, 40 bytes.
pub fn texture_alignment_read(
    env: &ProcessEnv,
    mem: &mut GuestMem,
    ehandle: u32,
    brush_idx: u32,
    surface_idx: u32,
    ptr: u32,
) -> (r: Result<LowApiCode, HostFault>)
    ensures
        ({
            let lookup = spec_get_surface(env.map, ehandle, brush_idx, surface_idx);
            fixed_read_post(
                *env,
                *old(mem),
                *final(mem),
                lookup,
                match lookup {
                    Ok(surface) => base_alignment_le_bytes(surface.alignment.spec_base()),
                    Err(_) => Seq::empty(),
                },
                ptr,
                r,
            )
        }),
{
    let surface = match env.map.get_surface(ehandle, brush_idx, surface_idx) {
        Err(code) => {
            return Ok(code);
        },
        Ok(surface) => surface,
    };
    let payload = base_alignment_payload(surface.alignment.base());
    proof {
        crate::map::lemma_wire_lengths();
    }
    match mem.send_bytes(ptr, &payload) {
        Ok(_) => Ok(LowApiCode::Success),
        Err(fault) => Err(fault),
    }
}

/// Whether the surface's alignment carries texture axes: `1` for Valve220,
/// `0` for Standard. A failed lookup has no status channel here and aborts.
pub fn texture_alignment_is_valve(
    env: &ProcessEnv,
    ehandle: u32,
    brush_idx: u32,
    surface_idx: u32,
) -> (r: Result<u32, HostFault>)
    ensures
        match spec_get_surface(env.map, ehandle, brush_idx, surface_idx) {
            Err(code) => r == Err::<u32, HostFault>(HostFault::LookupFailure(code)),
            Ok(surface) => r == Ok::<u32, HostFault>(
                if surface.alignment is Valve220 {
                    1u32
                } else {
                    0u32
                },
            ),
        },
{
    let surface = match env.map.get_surface(ehandle, brush_idx, surface_idx) {
        Err(code) => {
            return Err(HostFault::LookupFailure(code));
        },
        Ok(surface) => surface,
    };
    match surface.alignment {
        Alignment::Standard(_) => Ok(0),
        Alignment::Valve220(_, _) => Ok(1),
    }
}

/// What `texture_axes_read` leaves behind: `NoAxesError` exactly on a
/// Standard surface, 48 written bytes exactly on a Valve220 one.
pub open spec fn texture_axes_read_post(
    env: ProcessEnv,
    pre_mem: GuestMem,
    mem: GuestMem,
    ehandle: u32,
    brush_idx: u32,
    surface_idx: u32,
    ptr: u32,
    r: Result<LowApiCode, HostFault>,
) -> bool {
    match spec_get_surface(env.map, ehandle, brush_idx, surface_idx) {
        Err(code) => r == Ok::<LowApiCode, HostFault>(code) && mem == pre_mem,
        Ok(surface) => match surface.alignment {
            Alignment::Standard(_) => r == Ok::<LowApiCode, HostFault>(LowApiCode::NoAxesError)
                && mem == pre_mem,
            Alignment::Valve220(_, axes) => {
                if ptr + 48 <= pre_mem@.len() {
                    r == Ok::<LowApiCode, HostFault>(LowApiCode::Success) && mem_wrote(
                        pre_mem,
                        mem,
                        ptr,
                        axes_le_bytes(axes),
                    )
                } else {
                    r == Err::<LowApiCode, HostFault>(HostFault::OutOfBounds) && mem == pre_mem
                }
            },
        },
    }
}

/// Writes the surface's texture axes when its alignment is Valve220;
/// reports `NoAxesError`, writing nothing, when it is Standard.
pub fn texture_axes_read(
    env: &ProcessEnv,
    mem: &mut GuestMem,
    ehandle: u32,
    brush_idx: u32,
    surface_idx: u32,
    ptr: u32,
) -> (r: Result<LowApiCode, HostFault>)
    ensures
        texture_axes_read_post(
            *env,
            *old(mem),
            *final(mem),
            ehandle,
            brush_idx,
            surface_idx,
            ptr,
            r,
        ),
{
    let surface = match env.map.get_surface(ehandle, brush_idx, surface_idx) {
        Err(code) => {
            return Ok(code);
        },
        Ok(surface) => surface,
    };
    let axes = match &surface.alignment {
        Alignment::Standard(_) => {
            return Ok(LowApiCode::NoAxesError);
        },
        Alignment::Valve220(_, axes) => axes,
    };
    let payload = axes_payload(axes);
    proof {
        crate::map::lemma_wire_lengths();
    }
    match mem.send_bytes(ptr, &payload) {
        Ok(_) => Ok(LowApiCode::Success),
        Err(fault) => Err(fault),
    }
}

/// What `register` leaves behind.
pub open spec fn register_post(
    pre: InitEnv,
    env: InitEnv,
    m: Seq<u8>,
    name_len: u32,
    name_ptr: u32,
    r: Result<(), HostFault>,
) -> bool {
    if name_ptr + name_len > m.len() {
        r == Err::<(), HostFault>(HostFault::OutOfBounds) && env == pre
    } else {
        let name = m.subrange(name_ptr as int, name_ptr + name_len);
        if is_utf8(name) {
            r == Ok::<(), HostFault>(()) && env.plugin_name@ == name
        } else {
            r == Err::<(), HostFault>(HostFault::InvalidText) && env == pre
        }
    }
}

/// The guest self-identifies; the host keeps the name for log prefixing.
/// `init` only.
pub fn register(env: &mut InitEnv, mem: &GuestMem, name_len: u32, name_ptr: u32) -> (r: Result<
    (),
    HostFault,
>)
    ensures
        register_post(*old(env), *final(env), mem@, name_len, name_ptr, r),
{
    let name = match mem.recv_bytes(name_ptr, name_len) {
        Ok(name) => name,
        Err(fault) => {
            return Err(fault);
        },
    };
    if !check_utf8(&name) {
        return Err(HostFault::InvalidText);
    }
    env.plugin_name = name;
    Ok(())
}

/// What a log import leaves behind: the framed line it owes the sink.
pub open spec fn log_post(
    plugin: Seq<u8>,
    m: Seq<u8>,
    mesg_len: u32,
    mesg_ptr: u32,
    level: LogLevel,
    r: Result<Vec<u8>, HostFault>,
) -> bool {
    if mesg_ptr + mesg_len > m.len() {
        r == Err::<Vec<u8>, HostFault>(HostFault::OutOfBounds)
    } else {
        let mesg = m.subrange(mesg_ptr as int, mesg_ptr + mesg_len);
        if is_utf8(mesg) {
            r matches Ok(line) && line@ == log_line(plugin, level, mesg)
        } else {
            r == Err::<Vec<u8>, HostFault>(HostFault::InvalidText)
        }
    }
}

/// Receives a message, validates it, and frames the line owed to the sink.
/// Live in both hooks.
pub fn log_message<E: PluginEnv>(
    env: &E,
    mem: &GuestMem,
    mesg_len: u32,
    mesg_ptr: u32,
    level: LogLevel,
) -> (r: Result<Vec<u8>, HostFault>)
    ensures
        log_post(env.spec_plugin_name(), mem@, mesg_len, mesg_ptr, level, r),
{
    let mesg = match mem.recv_bytes(mesg_ptr, mesg_len) {
        Ok(mesg) => mesg,
        Err(fault) => {
            return Err(fault);
        },
    };
    if !check_utf8(&mesg) {
        return Err(HostFault::InvalidText);
    }
    Ok(format_log_line(env.plugin_name(), level, &mesg))
}

/// The info-level log import: the line goes to the standard output sink.
pub fn log_info<E: PluginEnv>(env: &E, mem: &GuestMem, mesg_len: u32, mesg_ptr: u32) -> (r: Result<
    Vec<u8>,
    HostFault,
>)
    ensures
        log_post(env.spec_plugin_name(), mem@, mesg_len, mesg_ptr, LogLevel::Info, r),
{
    log_message(env, mem, mesg_len, mesg_ptr, LogLevel::Info)
}

/// The error-level log import: the line goes to the standard error sink.
pub fn log_error<E: PluginEnv>(env: &E, mem: &GuestMem, mesg_len: u32, mesg_ptr: u32) -> (r: Result<
    Vec<u8>,
    HostFault,
>)
    ensures
        log_post(env.spec_plugin_name(), mem@, mesg_len, mesg_ptr, LogLevel::Error, r),
{
    log_message(env, mem, mesg_len, mesg_ptr, LogLevel::Error)
}

} // verus!
