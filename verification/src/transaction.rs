//! Single-payload hand-off between the two phases of a variable-size read.
//!
//! A variable-size read crosses the boundary in two calls: the first computes
//! the payload and reports its size, the second writes the bytes into a buffer
//! the guest allocated in between. The slot carries the payload across the two
//! calls and catches misuse: opening an open slot, or closing a closed one,
//! is reported so the host can abort the guest.

use vstd::prelude::*;

verus! {

enum TransactionState<T> {
    Closed,
    Open(T),
}

/// A slot that is either `Closed` or `Open` around one staged payload.
pub struct Transaction<T> {
    state: TransactionState<T>,
}

impl<T> Transaction<T> {
    /// Whether the slot currently holds no payload.
    pub closed spec fn is_closed(&self) -> bool {
        self.state is Closed
    }

    /// Whether the slot currently holds a staged payload.
    pub open spec fn is_open(&self) -> bool {
        !self.is_closed()
    }

    /// The staged payload, meaningful only while the slot is open.
    pub closed spec fn payload(&self) -> T
        recommends
            self.is_open(),
    {
        self.state->Open_0
    }

    /// Two closed slots are equal: a slot's value is its staged payload.
    pub proof fn lemma_closed_slots_equal(a: Transaction<T>, b: Transaction<T>)
        requires
            a.is_closed(),
            b.is_closed(),
        ensures
            a == b,
    {
    }

    /// A fresh slot, closed as every slot must be at hook entry.
    pub fn new() -> (t: Self)
        ensures
            t.is_closed(),
    {
        Self { state: TransactionState::Closed }
    }

    /// Stages a payload. Fails, leaving the slot untouched, if one is
    /// already staged.
    pub fn open(&mut self, payload: T) -> (r: Result<(), ()>)
        ensures
            old(self).is_closed() ==> {
                &&& r is Ok
                &&& final(self).is_open()
                &&& final(self).payload() == payload
            },
            old(self).is_open() ==> r is Err && *final(self) == *old(self),
    {
        match self.state {
            TransactionState::Closed => {
                self.state = TransactionState::Open(payload);
                Ok(())
            },
            TransactionState::Open(_) => Err(()),
        }
    }

    /// Takes the staged payload out, leaving the slot closed. Fails if
    /// nothing is staged.
    pub fn close(&mut self) -> (r: Result<T, ()>)
        ensures
            final(self).is_closed(),
            old(self).is_open() ==> (r matches Ok(p) && p == old(self).payload()),
            old(self).is_closed() ==> r is Err && *final(self) == *old(self),
    {
        let mut taken = TransactionState::Closed;
        core::mem::swap(&mut self.state, &mut taken);
        match taken {
            TransactionState::Closed => Err(()),
            TransactionState::Open(payload) => Ok(payload),
        }
    }
}

} // verus!
