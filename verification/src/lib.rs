//! Host-guest interop layer for a sandboxed map-processor plug-in host.
//!
//! A guest module, compiled to a portable bytecode VM, reads a parsed map
//! through a narrow byte-oriented import surface. This crate holds the
//! verified core of that boundary: the shared status codes, the transfer
//! primitives over the guest's linear memory, the transaction slots that
//! carry payloads across two-phase variable-size reads, the map accessor,
//! the import handlers with their per-hook capability surface, and the
//! guest-side conveniences that wrap the raw protocol.

#![verifier::loop_isolation(false)]

use vstd::prelude::*;

pub mod abi;
pub mod guest;
pub mod handles;
pub mod hooks;
pub mod map;
mod mem;
pub mod patch;
mod status;
pub mod text;
mod transaction;

pub use mem::GuestMem;
pub use status::HostFault;
pub use status::LowApiCode;
pub use transaction::Transaction;

verus! {

/// Converts a 32-bit wire scalar to a native byte count.
pub fn wasm_to_native_size(wasm: i32) -> (r: usize)
    ensures
        r == wasm as u32 as usize,
{
    (wasm as u32) as usize
}

/// Converts a native byte count to the 32-bit scalar the wire carries; a
/// count past the wire's range is fatal.
pub fn native_to_wasm_size(native: usize) -> (r: Result<i32, HostFault>)
    ensures
        match r {
            Ok(wasm) => wasm as u32 == native,
            Err(fault) => fault == HostFault::PayloadTooLarge && native > u32::MAX,
        },
{
    if native <= u32::MAX as usize {
        let wide: u32 = native as u32;
        let wasm: i32 = wide as i32;
        proof {
            assert((wide as i32) as u32 == wide) by (bit_vector);
        }
        Ok(wasm)
    } else {
        Err(HostFault::PayloadTooLarge)
    }
}

} // verus!
