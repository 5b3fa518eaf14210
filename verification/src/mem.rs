//! Transfer primitives over the guest instance's linear memory.
//!
//! Linear memory is a contiguous byte-addressed region owned by the guest;
//! the host reads and writes it through 32-bit unsigned offsets. Every
//! variable-size datum crosses the boundary as bytes in this region. A
//! failed transfer inside an import means a malformed guest pointer and is
//! fatal, never a status code.

use vstd::prelude::*;

use crate::status::HostFault;

verus! {

/// Position of the first `0x00` byte at or after `start`, or `m.len()` when
/// no terminator follows.
pub open spec fn nul_pos(m: Seq<u8>, start: int) -> int
    decreases m.len() - start,
{
    if start < 0 || start >= m.len() {
        m.len() as int
    } else if m[start] == 0 {
        start
    } else {
        nul_pos(m, start + 1)
    }
}

/// What `nul_pos` returns: the first terminator's position, with no
/// terminator before it.
pub proof fn lemma_nul_pos(m: Seq<u8>, start: int)
    requires
        0 <= start,
    ensures
        nul_pos(m, start) <= m.len(),
        start <= m.len() ==> start <= nul_pos(m, start),
        nul_pos(m, start) < m.len() ==> m[nul_pos(m, start)] == 0,
        forall|k: int| start <= k < nul_pos(m, start) ==> m[k] != 0,
    decreases m.len() - start,
{
    if start < m.len() && m[start] != 0 {
        lemma_nul_pos(m, start + 1);
    }
}

/// A scan that saw no terminator in `[start, upto)` pins `nul_pos` past
/// `upto`: at `upto` itself when a terminator sits there, at the end when
/// the scan covered the whole tail.
pub proof fn lemma_nul_pos_from_scan(m: Seq<u8>, start: int, upto: int)
    requires
        0 <= start <= upto <= m.len(),
        forall|k: int| start <= k < upto ==> m[k] != 0,
    ensures
        upto == m.len() ==> nul_pos(m, start) == m.len(),
        upto < m.len() && m[upto] == 0 ==> nul_pos(m, start) == upto,
    decreases upto - start,
{
    if start < upto {
        lemma_nul_pos_from_scan(m, start + 1, upto);
    }
}

/// The relation a successful `send_bytes` leaves behind: `data` sits at
/// `ptr`, everything else is as it was, and the heap cursor did not move.
pub open spec fn mem_wrote(pre: GuestMem, post: GuestMem, ptr: u32, data: Seq<u8>) -> bool {
    &&& ptr + data.len() <= pre@.len()
    &&& post@.len() == pre@.len()
    &&& post@.subrange(ptr as int, ptr + data.len()) == data
    &&& forall|j: int| 0 <= j < data.len() ==> post@[ptr + j] == data[j]
    &&& forall|j: int|
        0 <= j < pre@.len() && !(ptr <= j < ptr + data.len()) ==> post@[j] == pre@[j]
    &&& post.spec_heap_next() == pre.spec_heap_next()
}

/// A slice of a region known byte for byte equals the matching slice of
/// the bytes written there.
pub proof fn lemma_subrange_of_written(m: Seq<u8>, ptr: int, data: Seq<u8>, a: int, b: int)
    requires
        0 <= ptr,
        ptr + data.len() <= m.len(),
        forall|j: int| 0 <= j < data.len() ==> m[ptr + j] == data[j],
        0 <= a <= b <= data.len(),
    ensures
        m.subrange(ptr + a, ptr + b) == data.subrange(a, b),
{
    assert forall|j: int| 0 <= j < b - a implies m.subrange(ptr + a, ptr + b)[j] == data.subrange(
        a,
        b,
    )[j] by {
        assert(m[ptr + (a + j)] == data[a + j]);
    }
    assert(m.subrange(ptr + a, ptr + b) =~= data.subrange(a, b));
}

/// A fresh copy of a byte vector.
pub fn clone_bytes(src: &Vec<u8>) -> (r: Vec<u8>)
    ensures
        r@ == src@,
{
    let mut out: Vec<u8> = Vec::new();
    let mut i: usize = 0;
    while i < src.len()
        invariant
            i <= src@.len(),
            out@ == src@.take(i as int),
        decreases src@.len() - i,
    {
        out.push(src[i]);
        i = i + 1;
        proof {
            assert(out@ =~= src@.take(i as int));
        }
    }
    proof {
        assert(src@.take(src@.len() as int) =~= src@);
    }
    out
}

/// A byte vector in wire form: the body followed by one NUL terminator.
pub fn bytes_with_nul(src: &Vec<u8>) -> (r: Vec<u8>)
    ensures
        r@ == src@ + seq![0u8],
{
    let mut out = clone_bytes(src);
    out.push(0);
    out
}

/// The guest instance's linear memory, together with the bump cursor of the
/// guest's small allocator.
pub struct GuestMem {
    bytes: Vec<u8>,
    heap_next: u32,
}

impl View for GuestMem {
    type V = Seq<u8>;

    closed spec fn view(&self) -> Seq<u8> {
        self.bytes@
    }
}

impl GuestMem {
    /// The guest allocator's bump cursor: every byte at or above it is free.
    pub closed spec fn spec_heap_next(&self) -> u32 {
        self.heap_next
    }

    /// A fresh zeroed memory of `size` bytes with the allocator at its base.
    pub fn new(size: u32) -> (m: GuestMem)
        ensures
            m@.len() == size,
            forall|j: int| 0 <= j < size ==> m@[j] == 0,
            m.spec_heap_next() == 0,
    {
        let mut bytes: Vec<u8> = Vec::new();
        while bytes.len() < size as usize
            invariant
                bytes@.len() <= size,
                forall|j: int| 0 <= j < bytes@.len() ==> bytes@[j] == 0,
            decreases size - bytes@.len(),
        {
            bytes.push(0);
        }
        GuestMem { bytes, heap_next: 0 }
    }

    /// Reserves `len` fresh bytes for the guest, growing the region with
    /// zeroes where it is too short, and returns their base offset.
    pub fn reserve_bytes(&mut self, len: u32) -> (ptr: u32)
        requires
            old(self).spec_heap_next() + len <= u32::MAX,
        ensures
            ptr == old(self).spec_heap_next(),
            final(self).spec_heap_next() == ptr + len,
            old(self)@.len() <= final(self)@.len(),
            ptr + len <= final(self)@.len(),
            final(self)@.subrange(0, old(self)@.len() as int) == old(self)@,
            forall|j: int| old(self)@.len() <= j < final(self)@.len() ==> final(self)@[j] == 0,
    {
        let ptr = self.heap_next;
        self.heap_next = ptr + len;
        let target = (ptr as usize) + (len as usize);
        while self.bytes.len() < target
            invariant
                self.heap_next == ptr + len,
                old(self)@.len() <= self.bytes@.len(),
                self.bytes@.subrange(0, old(self)@.len() as int) == old(self)@,
                forall|j: int|
                    old(self)@.len() <= j < self.bytes@.len() ==> self.bytes@[j] == 0,
            decreases target - self.bytes@.len(),
        {
            self.bytes.push(0);
        }
        ptr
    }

    /// Copies `len` bytes starting at `ptr` out of linear memory; fails when
    /// the range reaches past the end.
    pub fn recv_bytes(&self, ptr: u32, len: u32) -> (r: Result<Vec<u8>, HostFault>)
        ensures
            if ptr + len <= self@.len() {
                r matches Ok(b) && b@ == self@.subrange(ptr as int, ptr + len)
            } else {
                r == Err::<Vec<u8>, HostFault>(HostFault::OutOfBounds)
            },
    {
        if (ptr as u64) + (len as u64) > self.bytes.len() as u64 {
            return Err(HostFault::OutOfBounds);
        }
        let mut out: Vec<u8> = Vec::new();
        let mut i: usize = 0;
        while i < len as usize
            invariant
                ptr + len <= self@.len(),
                i <= len,
                out@ == self@.subrange(ptr as int, ptr + i),
            decreases len - i,
        {
            out.push(self.bytes[ptr as usize + i]);
            i = i + 1;
            proof {
                assert(out@ =~= self@.subrange(ptr as int, ptr + i));
            }
        }
        Ok(out)
    }

    /// Scans from `ptr` to the first `0x00` byte, returning the bytes before
    /// it; fails when the scan reaches the end of memory without finding one.
    pub fn recv_c_string(&self, ptr: u32) -> (r: Result<Vec<u8>, HostFault>)
        ensures
            ({
                let p = nul_pos(self@, ptr as int);
                if p < self@.len() {
                    r matches Ok(b) && b@ == self@.subrange(ptr as int, p)
                } else {
                    r == Err::<Vec<u8>, HostFault>(HostFault::OutOfBounds)
                }
            }),
    {
        proof {
            lemma_nul_pos(self@, ptr as int);
        }
        if ptr as usize >= self.bytes.len() {
            return Err(HostFault::OutOfBounds);
        }
        let mut out: Vec<u8> = Vec::new();
        let mut i: usize = ptr as usize;
        loop
            invariant
                ptr as int <= i as int <= self@.len(),
                out@ == self@.subrange(ptr as int, i as int),
                forall|k: int| ptr <= k < i ==> self@[k] != 0,
            decreases self@.len() - i,
        {
            if i >= self.bytes.len() {
                proof {
                    lemma_nul_pos_from_scan(self@, ptr as int, i as int);
                }
                return Err(HostFault::OutOfBounds);
            }
            let b = self.bytes[i];
            if b == 0 {
                proof {
                    lemma_nul_pos_from_scan(self@, ptr as int, i as int);
                }
                return Ok(out);
            }
            out.push(b);
            i = i + 1;
            proof {
                assert(out@ =~= self@.subrange(ptr as int, i as int));
            }
        }
    }

    /// Copies `payload` into linear memory starting at `ptr`; fails, leaving
    /// memory untouched, when the range reaches past the end.
    pub fn send_bytes(&mut self, ptr: u32, payload: &Vec<u8>) -> (r: Result<(), HostFault>)
        ensures
            if ptr + payload@.len() <= old(self)@.len() {
                r is Ok && mem_wrote(*old(self), *final(self), ptr, payload@)
            } else {
                r == Err::<(), HostFault>(HostFault::OutOfBounds) && *final(self) == *old(self)
            },
    {
        if (ptr as usize) > self.bytes.len() || payload.len() > self.bytes.len() - (ptr as usize) {
            return Err(HostFault::OutOfBounds);
        }
        let mut i: usize = 0;
        while i < payload.len()
            invariant
                ptr + payload@.len() <= old(self)@.len(),
                i <= payload@.len(),
                self@.len() == old(self)@.len(),
                self.spec_heap_next() == old(self).spec_heap_next(),
                forall|j: int| ptr <= j < ptr + i ==> self@[j] == payload@[j - ptr],
                forall|j: int|
                    0 <= j < old(self)@.len() && !(ptr <= j < ptr + i) ==> self@[j] == old(
                        self,
                    )@[j],
            decreases payload@.len() - i,
        {
            self.bytes.set(ptr as usize + i, payload[i]);
            i = i + 1;
        }
        proof {
            assert(self@.subrange(ptr as int, ptr + payload@.len()) =~= payload@);
        }
        Ok(())
    }

    /// The guest writing into its own memory, on a range it has allocated.
    pub fn write_bytes(&mut self, ptr: u32, payload: &Vec<u8>)
        requires
            ptr + payload@.len() <= old(self)@.len(),
        ensures
            mem_wrote(*old(self), *final(self), ptr, payload@),
    {
        let r = self.send_bytes(ptr, payload);
        proof {
            assert(r is Ok);
        }
    }

    /// The guest reading from its own memory, on a range it has allocated.
    pub fn read_bytes(&self, ptr: u32, len: u32) -> (r: Vec<u8>)
        requires
            ptr + len <= self@.len(),
        ensures
            r@ == self@.subrange(ptr as int, ptr + len),
    {
        match self.recv_bytes(ptr, len) {
            Ok(b) => b,
            Err(_) => {
                proof {
                    assert(false);
                }
                Vec::new()
            },
        }
    }
}

} // verus!
