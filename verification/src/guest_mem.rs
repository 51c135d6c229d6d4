//! A bounds-checked view of one guest module instance's linear memory.
//!
//! Guests hand the host plain offsets into their own linear memory, and
//! those offsets are attacker-controlled input. The execution engine owns
//! the memory; the mediation layer must have every offset translated and
//! bounds-checked before a single byte moves, and must never keep the
//! translated location beyond one call. This type models that service:
//! translation succeeds exactly when the whole requested range lies
//! inside the memory, and all access goes through it, so an invalid
//! offset can touch nothing.

use vstd::prelude::*;

verus! {

/// One instance's linear memory, addressed by guest-relative offsets.
#[derive(Debug)]
pub struct GuestMemory {
    pub data: Vec<u8>,
}

impl GuestMemory {
    /// Whether the engine can translate the range starting at `offset` and
    /// running for `len` bytes: true exactly when the range lies inside
    /// the memory. A failed translation is what a null host address
    /// signals at the boundary.
    pub open spec fn translates(self, offset: int, len: int) -> bool {
        0 <= offset && 0 <= len && offset + len <= self.data@.len()
    }

    /// A zero-filled memory of `size` bytes.
    pub fn new(size: usize) -> (r: Self)
        ensures
            r.data@.len() == size,
            forall|i: int| 0 <= i < size ==> r.data@[i] == 0u8,
    {
        let mut data: Vec<u8> = Vec::new();
        let mut i: usize = 0;
        while i < size
            invariant
                i <= size,
                data@.len() == i,
                forall|j: int| 0 <= j < i ==> data@[j] == 0u8,
            decreases size - i,
        {
            data.push(0u8);
            i = i + 1;
        }
        GuestMemory { data }
    }

    /// A memory holding exactly `data`.
    pub fn from_bytes(data: Vec<u8>) -> (r: Self)
        ensures
            r.data@ == data@,
    {
        GuestMemory { data }
    }

    /// Ask whether the engine would translate this range; `false` stands
    /// for the null host address.
    pub fn translate(&self, offset: u64, len: u64) -> (ok: bool)
        ensures
            ok == self.translates(offset as int, len as int),
    {
        let n = self.data.len();
        offset <= n as u64 && len <= (n as u64) - offset
    }

    /// Copy `len` bytes out of guest memory, starting at `offset`.
    pub fn read_range(&self, offset: usize, len: usize) -> (r: Vec<u8>)
        requires
            self.translates(offset as int, len as int),
        ensures
            r@ == self.data@.subrange(offset as int, offset as int + len as int),
    {
        let mut r: Vec<u8> = Vec::new();
        let n: usize = self.data.len();
        let mut i: usize = 0;
        while i < len
            invariant
                i <= len,
                n == self.data@.len(),
                offset + len <= n,
                r@.len() == i,
                forall|j: int| 0 <= j < i ==> r@[j] == self.data@[offset + j],
            decreases len - i,
        {
            r.push(self.data[offset + i]);
            i = i + 1;
        }
        proof {
            assert(r@ =~= self.data@.subrange(offset as int, offset as int + len as int));
        }
        r
    }

    /// Overwrite guest memory at `offset` with `bytes`; nothing outside
    /// the range changes.
    pub fn write_range(&mut self, offset: usize, bytes: &Vec<u8>)
        requires
            old(self).translates(offset as int, bytes@.len() as int),
        ensures
            final(self).data@.len() == old(self).data@.len(),
            forall|j: int|
                offset <= j < offset + bytes@.len() ==> final(self).data@[j] == bytes@[
                    j - offset
                ],
            forall|j: int|
                0 <= j < old(self).data@.len() && !(offset <= j < offset + bytes@.len())
                    ==> final(self).data@[j] == old(self).data@[j],
    {
        let len = bytes.len();
        let n: usize = self.data.len();
        let mut i: usize = 0;
        while i < len
            invariant
                i <= len,
                len == bytes@.len(),
                n == old(self).data@.len(),
                offset + len <= n,
                self.data@.len() == old(self).data@.len(),
                forall|j: int| offset <= j < offset + i ==> self.data@[j] == bytes@[j - offset],
                forall|j: int|
                    0 <= j < old(self).data@.len() && !(offset <= j < offset + i)
                        ==> self.data@[j] == old(self).data@[j],
            decreases len - i,
        {
            self.data[offset + i] = bytes[i];
            i = i + 1;
        }
    }
}

} // verus!
