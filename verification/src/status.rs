//! Status codes shared, bit for bit, by both sides of the sandbox boundary.
//!
//! The host transmits one of these as a 32-bit return value; the guest decodes
//! it with [`LowApiCode::from_native`]. The numeric values are pinned by
//! [`LowApiCode::to_native`] and must never be reordered.

use vstd::prelude::*;

verus! {

/// Recoverable outcome of an import call, as seen on the wire.
#[derive(Clone, Copy, Debug, PartialEq, Eq, Structural)]
pub enum LowApiCode {
    /// The call succeeded; any promised bytes were written.
    Success,
    /// The entity has no value under the requested key.
    KeyLookupError,
    /// The entity handle is out of range.
    EntityLookupError,
    /// The brush index is out of range for the entity.
    BrushLookupError,
    /// The surface index is out of range for the brush.
    SurfaceLookupError,
    /// The entity is of the wrong kind (a point entity has no brushes).
    EntityTypeError,
    /// The surface's alignment carries no texture axes.
    NoAxesError,
}

impl LowApiCode {
    /// The pinned 32-bit wire value of this status.
    pub open spec fn wire_value(self) -> u32 {
        match self {
            LowApiCode::Success => 0,
            LowApiCode::KeyLookupError => 1,
            LowApiCode::EntityLookupError => 2,
            LowApiCode::BrushLookupError => 3,
            LowApiCode::SurfaceLookupError => 4,
            LowApiCode::EntityTypeError => 5,
            LowApiCode::NoAxesError => 6,
        }
    }

    /// Encodes this status as its wire value.
    pub fn to_native(self) -> (r: u32)
        ensures
            r == self.wire_value(),
    {
        match self {
            LowApiCode::Success => 0,
            LowApiCode::KeyLookupError => 1,
            LowApiCode::EntityLookupError => 2,
            LowApiCode::BrushLookupError => 3,
            LowApiCode::SurfaceLookupError => 4,
            LowApiCode::EntityTypeError => 5,
            LowApiCode::NoAxesError => 6,
        }
    }

    /// Decodes a wire value; an unknown value yields `None`, which the guest
    /// surfaces as a generic error rather than a status.
    pub fn from_native(native: u32) -> (r: Option<LowApiCode>)
        ensures
            match r {
                Some(code) => code.wire_value() == native,
                None => forall|code: LowApiCode| code.wire_value() != native,
            },
    {
        if native == 0 {
            Some(LowApiCode::Success)
        } else if native == 1 {
            Some(LowApiCode::KeyLookupError)
        } else if native == 2 {
            Some(LowApiCode::EntityLookupError)
        } else if native == 3 {
            Some(LowApiCode::BrushLookupError)
        } else if native == 4 {
            Some(LowApiCode::SurfaceLookupError)
        } else if native == 5 {
            Some(LowApiCode::EntityTypeError)
        } else if native == 6 {
            Some(LowApiCode::NoAxesError)
        } else {
            None
        }
    }
}

/// Each status decodes back to itself: the two mirrored definitions agree.
pub proof fn lemma_status_round_trip(code: LowApiCode)
    ensures
        forall|other: LowApiCode|
            other.wire_value() == code.wire_value() ==> other == code,
{
}

/// Fatal guest misbehavior. Unlike a [`LowApiCode`], one of these never
/// crosses the boundary as a value: the host aborts the guest instance with
/// a diagnostic instead.
#[derive(Clone, Copy, Debug, PartialEq, Eq, Structural)]
pub enum HostFault {
    /// A guest pointer reaches past the end of linear memory, or a string
    /// scan ran off the end without finding a terminator.
    OutOfBounds,
    /// A second `init_read` was issued on a family whose slot still holds
    /// an unread payload.
    TransactionOpen,
    /// A `read` was issued on a family with no staged payload.
    TransactionClosed,
    /// A payload's byte length does not fit the 32-bit wire size.
    PayloadTooLarge,
    /// A plug-in name or log message is not valid UTF-8.
    InvalidText,
    /// A lookup failed inside an import that has no status-code channel to
    /// report it; the carried code names the failing level.
    LookupFailure(LowApiCode),
    /// The import is not implemented for the hook that called it.
    NotInContext,
}

} // verus!
