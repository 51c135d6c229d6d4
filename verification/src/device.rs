//! The I2C transceiver stub, with a log of every bus transaction.
//!
//! The physical transceiver is outside this crate's scope; the mediation
//! contract around it is not. This stub stands in for the driver: it
//! records each transaction it is asked to perform, so callers can state
//! — and tests observe — that a denied or short-circuited operation never
//! reaches the device. A read answers with a fixed repeating byte
//! pattern in place of real bus traffic, cut to exactly the requested
//! length.

use vstd::prelude::*;

verus! {

/// One write transaction handed to the device: target address and payload.
#[derive(Debug)]
pub struct BusWrite {
    pub addr: u16,
    pub data: Vec<u8>,
}

/// One read transaction handed to the device: target address and length.
#[derive(Debug, PartialEq, Eq, Structural)]
pub struct BusRead {
    pub addr: u16,
    pub len: usize,
}

/// The byte the stubbed device answers at position `i` of any read: the
/// pattern `0x11, 0xAB, 0xCD`, repeating.
pub open spec fn stub_byte(i: int) -> u8 {
    if i % 3 == 0 {
        0x11
    } else if i % 3 == 1 {
        0xAB
    } else {
        0xCD
    }
}

/// The stubbed bus: performs no real I/O, but keeps a faithful log of the
/// transactions it was asked for.
#[derive(Debug)]
pub struct I2cBus {
    pub writes: Vec<BusWrite>,
    pub reads: Vec<BusRead>,
}

impl I2cBus {
    /// A bus that has seen no transaction.
    pub fn new() -> (r: Self)
        ensures
            r.writes@.len() == 0,
            r.reads@.len() == 0,
    {
        I2cBus { writes: Vec::new(), reads: Vec::new() }
    }

    /// Transmit `data` to the device at `addr`. The stub always succeeds
    /// and returns the all-zero success byte; a real driver would extend
    /// the outcome set here without changing the wire size.
    pub fn write_transaction(&mut self, addr: u16, data: Vec<u8>) -> (outcome: u8)
        ensures
            outcome == 0u8,
            final(self).reads@ == old(self).reads@,
            final(self).writes@.len() == old(self).writes@.len() + 1,
            forall|i: int|
                0 <= i < old(self).writes@.len() ==> final(self).writes@[i] == old(
                    self,
                ).writes@[i],
            final(self).writes@.last().addr == addr,
            final(self).writes@.last().data@ == data@,
    {
        self.writes.push(BusWrite { addr, data });
        0u8
    }

    /// Request exactly `len` bytes from the device at `addr`.
    pub fn read_transaction(&mut self, addr: u16, len: usize) -> (data: Vec<u8>)
        ensures
            data@.len() == len,
            forall|i: int| 0 <= i < len ==> data@[i] == stub_byte(i),
            final(self).writes@ == old(self).writes@,
            final(self).reads@.len() == old(self).reads@.len() + 1,
            forall|i: int|
                0 <= i < old(self).reads@.len() ==> final(self).reads@[i] == old(
                    self,
                ).reads@[i],
            final(self).reads@.last() == (BusRead { addr, len }),
    {
        self.reads.push(BusRead { addr, len });
        let mut data: Vec<u8> = Vec::new();
        let mut i: usize = 0;
        while i < len
            invariant
                i <= len,
                data@.len() == i,
                forall|j: int| 0 <= j < i ==> data@[j] == stub_byte(j),
            decreases len - i,
        {
            let r = i % 3;
            let b: u8 = if r == 0 {
                0x11
            } else if r == 1 {
                0xAB
            } else {
                0xCD
            };
            data.push(b);
            i = i + 1;
        }
        data
    }
}

} // verus!
