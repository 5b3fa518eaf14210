//! The per-hook capability surface.
//!
//! The host registers every import for both hooks, but with an
//! implementation appropriate to each: the table below is enforced by the
//! two dispatchers, which run the real handler where the import is live and
//! abort the guest with [`HostFault::NotInContext`] where it is stubbed.
//!
//! | import                      | in `init` | in `process` |
//! |-----------------------------|-----------|--------------|
//! | `register`                  | live      | stub         |
//! | `log_info`, `log_error`     | live      | live         |
//! | all counts / exists / reads | stub      | live         |

use vstd::prelude::*;

use crate::abi;
use crate::abi::InitEnv;
use crate::abi::ProcessEnv;
use crate::mem::GuestMem;
use crate::status::HostFault;
use crate::status::LowApiCode;
use crate::text::LogLevel;

verus! {

/// One import call, as the VM hands it over: the import's name and its
/// 32-bit scalar arguments.
pub enum ImportCall {
    Register { name_len: u32, name_ptr: u32 },
    LogInfo { mesg_len: u32, mesg_ptr: u32 },
    LogError { mesg_len: u32, mesg_ptr: u32 },
    EhandleCount,
    BhandleCount { ehandle: u32, out_ptr: u32 },
    ShandleCount { ehandle: u32, brush_idx: u32, out_ptr: u32 },
    EntityExists { ehandle: u32 },
    BrushExists { ehandle: u32, brush_idx: u32 },
    SurfaceExists { ehandle: u32, brush_idx: u32, surface_idx: u32 },
    KeyvalueInitRead { ehandle: u32, key_ptr: u32, size_ptr: u32 },
    KeyvalueRead { val_ptr: u32 },
    KeysInitRead { ehandle: u32, size_ptr: u32 },
    KeysRead { keys_ptr: u32 },
    TextureInitRead { ehandle: u32, brush_idx: u32, surface_idx: u32, size_ptr: u32 },
    TextureRead { texture_ptr: u32 },
    HalfSpaceRead { ehandle: u32, brush_idx: u32, surface_idx: u32, ptr: u32 },
    TextureAlignmentRead { ehandle: u32, brush_idx: u32, surface_idx: u32, ptr: u32 },
    TextureAlignmentIsValve { ehandle: u32, brush_idx: u32, surface_idx: u32 },
    TextureAxesRead { ehandle: u32, brush_idx: u32, surface_idx: u32, ptr: u32 },
}

/// What a live import hands back to the VM, or to the sink.
#[derive(Debug, PartialEq, Eq)]
pub enum ImportResult {
    /// The import returns nothing.
    Unit,
    /// A scalar returned directly: a count or a 0/1 flag.
    Count(u32),
    /// A status code, transmitted as its 32-bit wire value.
    Status(LowApiCode),
    /// A framed log line owed to the standard output sink.
    Info(Vec<u8>),
    /// A framed log line owed to the standard error sink.
    Error(Vec<u8>),
}

/// The status-channel view of a dispatched result, for the imports whose
/// live handler returns a status code.
pub open spec fn status_result(r: Result<ImportResult, HostFault>) -> Result<
    LowApiCode,
    HostFault,
> {
    match r {
        Ok(res) => match res {
            ImportResult::Status(code) => Ok(code),
            _ => Ok(LowApiCode::Success),
        },
        Err(fault) => Err(fault),
    }
}

/// The imports that are live during the `init` hook.
pub open spec fn live_in_init(call: ImportCall) -> bool {
    match call {
        ImportCall::Register { .. } => true,
        ImportCall::LogInfo { .. } => true,
        ImportCall::LogError { .. } => true,
        _ => false,
    }
}

/// The imports that are live during the `process` hook.
pub open spec fn live_in_process(call: ImportCall) -> bool {
    !(call matches ImportCall::Register { .. })
}

/// Serves one import call during the `init` hook: `register` and the two
/// log imports are live, everything else aborts the guest with a
/// not-implemented-in-context diagnostic.
pub fn dispatch_init(env: &mut InitEnv, mem: &GuestMem, call: ImportCall) -> (r: Result<
    ImportResult,
    HostFault,
>)
    ensures
        r == Err::<ImportResult, HostFault>(HostFault::NotInContext) <==> !live_in_init(call),
        !live_in_init(call) ==> *final(env) == *old(env),
        call matches ImportCall::Register { name_len, name_ptr } ==> match r {
            Ok(res) => res is Unit && abi::register_post(
                *old(env),
                *final(env),
                mem@,
                name_len,
                name_ptr,
                Ok(()),
            ),
            Err(fault) => abi::register_post(
                *old(env),
                *final(env),
                mem@,
                name_len,
                name_ptr,
                Err(fault),
            ),
        },
        call matches ImportCall::LogInfo { mesg_len, mesg_ptr } ==> *final(env) == *old(env)
            && match r {
            Ok(res) => res matches ImportResult::Info(line) && abi::log_post(
                old(env).plugin_name@,
                mem@,
                mesg_len,
                mesg_ptr,
                LogLevel::Info,
                Ok(line),
            ),
            Err(fault) => abi::log_post(
                old(env).plugin_name@,
                mem@,
                mesg_len,
                mesg_ptr,
                LogLevel::Info,
                Err(fault),
            ),
        },
        call matches ImportCall::LogError { mesg_len, mesg_ptr } ==> *final(env) == *old(env)
            && match r {
            Ok(res) => res matches ImportResult::Error(line) && abi::log_post(
                old(env).plugin_name@,
                mem@,
                mesg_len,
                mesg_ptr,
                LogLevel::Error,
                Ok(line),
            ),
            Err(fault) => abi::log_post(
                old(env).plugin_name@,
                mem@,
                mesg_len,
                mesg_ptr,
                LogLevel::Error,
                Err(fault),
            ),
        },
{
    match call {
        ImportCall::Register { name_len, name_ptr } => {
            match abi::register(env, mem, name_len, name_ptr) {
                Ok(_) => Ok(ImportResult::Unit),
                Err(fault) => Err(fault),
            }
        },
        ImportCall::LogInfo { mesg_len, mesg_ptr } => {
            match abi::log_info(env, mem, mesg_len, mesg_ptr) {
                Ok(line) => Ok(ImportResult::Info(line)),
                Err(fault) => Err(fault),
            }
        },
        ImportCall::LogError { mesg_len, mesg_ptr } => {
            match abi::log_error(env, mem, mesg_len, mesg_ptr) {
                Ok(line) => Ok(ImportResult::Error(line)),
                Err(fault) => Err(fault),
            }
        },
        _ => Err(HostFault::NotInContext),
    }
}

/// Serves one import call during the `process` hook: everything but
/// `register` is live.
pub fn dispatch_process(env: &mut ProcessEnv, mem: &mut GuestMem, call: ImportCall) -> (r: Result<
    ImportResult,
    HostFault,
>)
    ensures
        r == Err::<ImportResult, HostFault>(HostFault::NotInContext) <==> !live_in_process(call),
        !live_in_process(call) ==> *final(env) == *old(env) && *final(mem) == *old(mem),
        call matches ImportCall::LogInfo { mesg_len, mesg_ptr } ==> *final(env) == *old(env)
            && *final(mem) == *old(mem) && match r {
            Ok(res) => res matches ImportResult::Info(line) && abi::log_post(
                old(env).plugin_name@,
                old(mem)@,
                mesg_len,
                mesg_ptr,
                LogLevel::Info,
                Ok(line),
            ),
            Err(fault) => abi::log_post(
                old(env).plugin_name@,
                old(mem)@,
                mesg_len,
                mesg_ptr,
                LogLevel::Info,
                Err(fault),
            ),
        },
        call matches ImportCall::LogError { mesg_len, mesg_ptr } ==> *final(env) == *old(env)
            && *final(mem) == *old(mem) && match r {
            Ok(res) => res matches ImportResult::Error(line) && abi::log_post(
                old(env).plugin_name@,
                old(mem)@,
                mesg_len,
                mesg_ptr,
                LogLevel::Error,
                Ok(line),
            ),
            Err(fault) => abi::log_post(
                old(env).plugin_name@,
                old(mem)@,
                mesg_len,
                mesg_ptr,
                LogLevel::Error,
                Err(fault),
            ),
        },
        call is EhandleCount ==> *final(env) == *old(env) && *final(mem) == *old(mem) && match r {
            Ok(res) => res matches ImportResult::Count(n) && old(env).map.entities@.len() == n,
            Err(fault) => fault == HostFault::PayloadTooLarge && old(env).map.entities@.len()
                > u32::MAX,
        },
        call matches ImportCall::BhandleCount { ehandle, out_ptr } ==> *final(env) == *old(env)
            && match r {
            Ok(res) => res matches ImportResult::Status(code) && abi::bhandle_count_post(
                *old(env),
                *old(mem),
                *final(mem),
                ehandle,
                out_ptr,
                Ok(code),
            ),
            Err(fault) => abi::bhandle_count_post(
                *old(env),
                *old(mem),
                *final(mem),
                ehandle,
                out_ptr,
                Err(fault),
            ),
        },
        call matches ImportCall::ShandleCount { ehandle, brush_idx, out_ptr } ==> *final(env)
            == *old(env) && match r {
            Ok(res) => res matches ImportResult::Status(code) && abi::shandle_count_post(
                *old(env),
                *old(mem),
                *final(mem),
                ehandle,
                brush_idx,
                out_ptr,
                Ok(code),
            ),
            Err(fault) => abi::shandle_count_post(
                *old(env),
                *old(mem),
                *final(mem),
                ehandle,
                brush_idx,
                out_ptr,
                Err(fault),
            ),
        },
        call matches ImportCall::EntityExists { ehandle } ==> *final(env) == *old(env)
            && *final(mem) == *old(mem) && match r {
            Ok(res) => res matches ImportResult::Count(flag) && old(env).map.entities@.len()
                <= u32::MAX && flag == if ehandle < old(env).map.entities@.len() {
                1u32
            } else {
                0u32
            },
            Err(fault) => fault == HostFault::PayloadTooLarge && old(env).map.entities@.len()
                > u32::MAX,
        },
        call matches ImportCall::BrushExists { ehandle, brush_idx } ==> *final(env) == *old(env)
            && *final(mem) == *old(mem) && match r {
            Ok(res) => res matches ImportResult::Count(flag) && abi::brush_exists_post(
                *old(env),
                ehandle,
                brush_idx,
                Ok(flag),
            ),
            Err(fault) => abi::brush_exists_post(*old(env), ehandle, brush_idx, Err(fault)),
        },
        call matches ImportCall::SurfaceExists { ehandle, brush_idx, surface_idx } ==> *final(env)
            == *old(env) && *final(mem) == *old(mem) && match r {
            Ok(res) => res matches ImportResult::Count(flag) && abi::surface_exists_post(
                *old(env),
                ehandle,
                brush_idx,
                surface_idx,
                Ok(flag),
            ),
            Err(fault) => abi::surface_exists_post(
                *old(env),
                ehandle,
                brush_idx,
                surface_idx,
                Err(fault),
            ),
        },
        call matches ImportCall::KeyvalueInitRead { ehandle, key_ptr, size_ptr } ==> match r {
            Ok(res) => res matches ImportResult::Status(code) && abi::keyvalue_init_read_post(
                *old(env),
                *old(mem),
                *final(env),
                *final(mem),
                ehandle,
                key_ptr,
                size_ptr,
                Ok(code),
            ),
            Err(fault) => abi::keyvalue_init_read_post(
                *old(env),
                *old(mem),
                *final(env),
                *final(mem),
                ehandle,
                key_ptr,
                size_ptr,
                Err(fault),
            ),
        },
        call matches ImportCall::KeyvalueRead { val_ptr } ==> abi::env_same_but_kv(
            *old(env),
            *final(env),
        ) && match r {
            Ok(res) => res is Unit && abi::payload_read_post(
                old(env).keyvalue_read_transaction,
                final(env).keyvalue_read_transaction,
                *old(mem),
                *final(mem),
                val_ptr,
                Ok(()),
            ),
            Err(fault) => abi::payload_read_post(
                old(env).keyvalue_read_transaction,
                final(env).keyvalue_read_transaction,
                *old(mem),
                *final(mem),
                val_ptr,
                Err(fault),
            ),
        },
        call matches ImportCall::KeysInitRead { ehandle, size_ptr } ==> match r {
            Ok(res) => res matches ImportResult::Status(code) && abi::keys_init_read_post(
                *old(env),
                *old(mem),
                *final(env),
                *final(mem),
                ehandle,
                size_ptr,
                Ok(code),
            ),
            Err(fault) => abi::keys_init_read_post(
                *old(env),
                *old(mem),
                *final(env),
                *final(mem),
                ehandle,
                size_ptr,
                Err(fault),
            ),
        },
        call matches ImportCall::KeysRead { keys_ptr } ==> abi::env_same_but_keys(
            *old(env),
            *final(env),
        ) && match r {
            Ok(res) => res is Unit && abi::payload_read_post(
                old(env).keys_read_transaction,
                final(env).keys_read_transaction,
                *old(mem),
                *final(mem),
                keys_ptr,
                Ok(()),
            ),
            Err(fault) => abi::payload_read_post(
                old(env).keys_read_transaction,
                final(env).keys_read_transaction,
                *old(mem),
                *final(mem),
                keys_ptr,
                Err(fault),
            ),
        },
        call matches ImportCall::TextureInitRead { ehandle, brush_idx, surface_idx, size_ptr }
            ==> match r {
            Ok(res) => res matches ImportResult::Status(code) && abi::texture_init_read_post(
                *old(env),
                *old(mem),
                *final(env),
                *final(mem),
                ehandle,
                brush_idx,
                surface_idx,
                size_ptr,
                Ok(code),
            ),
            Err(fault) => abi::texture_init_read_post(
                *old(env),
                *old(mem),
                *final(env),
                *final(mem),
                ehandle,
                brush_idx,
                surface_idx,
                size_ptr,
                Err(fault),
            ),
        },
        call matches ImportCall::TextureRead { texture_ptr } ==> abi::env_same_but_texture(
            *old(env),
            *final(env),
        ) && match r {
            Ok(res) => res is Unit && abi::payload_read_post(
                old(env).texture_read_transaction,
                final(env).texture_read_transaction,
                *old(mem),
                *final(mem),
                texture_ptr,
                Ok(()),
            ),
            Err(fault) => abi::payload_read_post(
                old(env).texture_read_transaction,
                final(env).texture_read_transaction,
                *old(mem),
                *final(mem),
                texture_ptr,
                Err(fault),
            ),
        },
        call matches ImportCall::HalfSpaceRead { ehandle, brush_idx, surface_idx, ptr } ==> *final(env) == *old(env) && (r matches Ok(res) ==> res is Status)
            && abi::fixed_read_post(
            *old(env),
            *old(mem),
            *final(mem),
            crate::map::spec_get_surface(old(env).map, ehandle, brush_idx, surface_idx),
            match crate::map::spec_get_surface(old(env).map, ehandle, brush_idx, surface_idx) {
                Ok(surface) => crate::map::half_space_le_bytes(surface.half_space),
                Err(_) => Seq::empty(),
            },
            ptr,
            status_result(r),
        ),
        call matches ImportCall::TextureAlignmentRead { ehandle, brush_idx, surface_idx, ptr }
            ==> *final(env) == *old(env) && (r matches Ok(res) ==> res is Status)
            && abi::fixed_read_post(
            *old(env),
            *old(mem),
            *final(mem),
            crate::map::spec_get_surface(old(env).map, ehandle, brush_idx, surface_idx),
            match crate::map::spec_get_surface(old(env).map, ehandle, brush_idx, surface_idx) {
                Ok(surface) => crate::map::base_alignment_le_bytes(surface.alignment.spec_base()),
                Err(_) => Seq::empty(),
            },
            ptr,
            status_result(r),
        ),
        call matches ImportCall::TextureAlignmentIsValve { ehandle, brush_idx, surface_idx }
            ==> *final(env) == *old(env) && *final(mem) == *old(mem) && match crate::map::spec_get_surface(
            old(env).map,
            ehandle,
            brush_idx,
            surface_idx,
        ) {
            Err(code) => r == Err::<ImportResult, HostFault>(HostFault::LookupFailure(code)),
            Ok(surface) => match r {
                Ok(res) => res matches ImportResult::Count(flag) && flag == if surface.alignment
                    is Valve220 {
                    1u32
                } else {
                    0u32
                },
                Err(_) => false,
            },
        },
        call matches ImportCall::TextureAxesRead { ehandle, brush_idx, surface_idx, ptr } ==> *final(env) == *old(env) && (r matches Ok(res) ==> res is Status)
            && abi::texture_axes_read_post(
            *old(env),
            *old(mem),
            *final(mem),
            ehandle,
            brush_idx,
            surface_idx,
            ptr,
            status_result(r),
        ),
{
    match call {
        ImportCall::Register { .. } => Err(HostFault::NotInContext),
        ImportCall::LogInfo { mesg_len, mesg_ptr } => {
            match abi::log_info(env, mem, mesg_len, mesg_ptr) {
                Ok(line) => Ok(ImportResult::Info(line)),
                Err(fault) => Err(fault),
            }
        },
        ImportCall::LogError { mesg_len, mesg_ptr } => {
            match abi::log_error(env, mem, mesg_len, mesg_ptr) {
                Ok(line) => Ok(ImportResult::Error(line)),
                Err(fault) => Err(fault),
            }
        },
        ImportCall::EhandleCount => {
            match abi::ehandle_count(env) {
                Ok(n) => Ok(ImportResult::Count(n)),
                Err(fault) => Err(fault),
            }
        },
        ImportCall::BhandleCount { ehandle, out_ptr } => {
            match abi::bhandle_count(env, mem, ehandle, out_ptr) {
                Ok(code) => Ok(ImportResult::Status(code)),
                Err(fault) => Err(fault),
            }
        },
        ImportCall::ShandleCount { ehandle, brush_idx, out_ptr } => {
            match abi::shandle_count(env, mem, ehandle, brush_idx, out_ptr) {
                Ok(code) => Ok(ImportResult::Status(code)),
                Err(fault) => Err(fault),
            }
        },
        ImportCall::EntityExists { ehandle } => {
            match abi::entity_exists(env, ehandle) {
                Ok(flag) => Ok(ImportResult::Count(flag)),
                Err(fault) => Err(fault),
            }
        },
        ImportCall::BrushExists { ehandle, brush_idx } => {
            match abi::brush_exists(env, ehandle, brush_idx) {
                Ok(flag) => Ok(ImportResult::Count(flag)),
                Err(fault) => Err(fault),
            }
        },
        ImportCall::SurfaceExists { ehandle, brush_idx, surface_idx } => {
            match abi::surface_exists(env, ehandle, brush_idx, surface_idx) {
                Ok(flag) => Ok(ImportResult::Count(flag)),
                Err(fault) => Err(fault),
            }
        },
        ImportCall::KeyvalueInitRead { ehandle, key_ptr, size_ptr } => {
            match abi::keyvalue_init_read(env, mem, ehandle, key_ptr, size_ptr) {
                Ok(code) => Ok(ImportResult::Status(code)),
                Err(fault) => Err(fault),
            }
        },
        ImportCall::KeyvalueRead { val_ptr } => {
            match abi::keyvalue_read(env, mem, val_ptr) {
                Ok(_) => Ok(ImportResult::Unit),
                Err(fault) => Err(fault),
            }
        },
        ImportCall::KeysInitRead { ehandle, size_ptr } => {
            match abi::keys_init_read(env, mem, ehandle, size_ptr) {
                Ok(code) => Ok(ImportResult::Status(code)),
                Err(fault) => Err(fault),
            }
        },
        ImportCall::KeysRead { keys_ptr } => {
            match abi::keys_read(env, mem, keys_ptr) {
                Ok(_) => Ok(ImportResult::Unit),
                Err(fault) => Err(fault),
            }
        },
        ImportCall::TextureInitRead { ehandle, brush_idx, surface_idx, size_ptr } => {
            match abi::texture_init_read(env, mem, ehandle, brush_idx, surface_idx, size_ptr) {
                Ok(code) => Ok(ImportResult::Status(code)),
                Err(fault) => Err(fault),
            }
        },
        ImportCall::TextureRead { texture_ptr } => {
            match abi::texture_read(env, mem, texture_ptr) {
                Ok(_) => Ok(ImportResult::Unit),
                Err(fault) => Err(fault),
            }
        },
        ImportCall::HalfSpaceRead { ehandle, brush_idx, surface_idx, ptr } => {
            match abi::half_space_read(env, mem, ehandle, brush_idx, surface_idx, ptr) {
                Ok(code) => Ok(ImportResult::Status(code)),
                Err(fault) => Err(fault),
            }
        },
        ImportCall::TextureAlignmentRead { ehandle, brush_idx, surface_idx, ptr } => {
            match abi::texture_alignment_read(env, mem, ehandle, brush_idx, surface_idx, ptr) {
                Ok(code) => Ok(ImportResult::Status(code)),
                Err(fault) => Err(fault),
            }
        },
        ImportCall::TextureAlignmentIsValve { ehandle, brush_idx, surface_idx } => {
            match abi::texture_alignment_is_valve(env, ehandle, brush_idx, surface_idx) {
                Ok(flag) => Ok(ImportResult::Count(flag)),
                Err(fault) => Err(fault),
            }
        },
        ImportCall::TextureAxesRead { ehandle, brush_idx, surface_idx, ptr } => {
            match abi::texture_axes_read(env, mem, ehandle, brush_idx, surface_idx, ptr) {
                Ok(code) => Ok(ImportResult::Status(code)),
                Err(fault) => Err(fault),
            }
        },
    }
}

} // verus!
