//! The three boundary operations a guest may invoke: acquire a handle,
//! write to the device, read from the device.
//!
//! Every operation follows the same mediation protocol. The execution
//! engine resolves which module instance is calling; its answer arrives
//! here as `caller`, with `None` standing for a caller it could not
//! resolve. The registry is then consulted for the caller's authorization
//! on the presented handle, the requested capability is enforced, and —
//! for buffer operations — the guest-relative offset is translated and
//! bounds-checked before any byte of guest memory or any device
//! transaction is touched. All failures collapse into the single
//! guest-visible `Other` outcome; on every failure path the bus log and
//! the guest's memory are left exactly as they were.

use vstd::prelude::*;

use crate::device::{stub_byte, BusRead, I2cBus};
use crate::errors::ErrorCode;
use crate::guest_mem::GuestMemory;
use crate::registry::{I2cManager, I2cPermissions};

verus! {

/// The caller may write through `handle`: the identity resolved, the
/// handle is registered under it, and its descriptor grants writing.
pub open spec fn write_permitted(m: I2cManager, caller: Option<u64>, handle: u32) -> bool {
    &&& caller is Some
    &&& m.lookup_spec(caller.unwrap(), handle) matches Some(p) && p.can_write
}

/// The caller may read through `handle`: the identity resolved, the
/// handle is registered under it, and its descriptor grants reading.
pub open spec fn read_permitted(m: I2cManager, caller: Option<u64>, handle: u32) -> bool {
    &&& caller is Some
    &&& m.lookup_spec(caller.unwrap(), handle) matches Some(p) && p.can_read
}

/// The byte a write call answers: success exactly when the caller is
/// authorized and the whole buffer range translates.
pub open spec fn write_outcome(
    m: I2cManager,
    mem: GuestMemory,
    caller: Option<u64>,
    handle: u32,
    len: int,
    buffer_offset: int,
) -> u8 {
    if write_permitted(m, caller, handle) && mem.translates(buffer_offset, len) {
        ErrorCode::NoError.byte_spec()
    } else {
        ErrorCode::Other.byte_spec()
    }
}

/// The byte a read call answers: success exactly when the caller is
/// authorized and the whole buffer range translates.
pub open spec fn read_outcome(
    m: I2cManager,
    mem: GuestMemory,
    caller: Option<u64>,
    handle: u32,
    len: int,
    buffer_offset: int,
) -> u8 {
    if read_permitted(m, caller, handle) && mem.translates(buffer_offset, len) {
        ErrorCode::NoError.byte_spec()
    } else {
        ErrorCode::Other.byte_spec()
    }
}

/// Acquire a device handle for the calling module instance.
///
/// An unresolved caller is rejected with the wire sentinel `0`, which the
/// counter never hands out. Otherwise a fresh handle — registered nowhere
/// in the registry, for any identity — is allocated, bound under the
/// caller's identity to the default descriptor (read and write allowed,
/// not whitelisted, empty address list), and returned; it is immediately
/// valid for this caller and remains meaningless under every other
/// identity.
pub fn open(manager: &mut I2cManager, caller: Option<u64>) -> (handle: u32)
    requires
        old(manager).wf(),
        old(manager).next_handle < u32::MAX,
    ensures
        final(manager).wf(),
        caller is None ==> handle == 0 && *final(manager) == *old(manager),
        caller is Some ==> handle == old(manager).next_handle,
        caller is Some ==> final(manager).next_handle == old(manager).next_handle + 1,
        caller is Some ==> old(manager).lookup_spec(caller.unwrap(), handle) is None,
        caller is Some ==> (final(manager).lookup_spec(caller.unwrap(), handle)
            matches Some(p) && p.can_read && p.can_write && !p.is_whitelisted
            && p.addresses@.len() == 0),
        caller is Some ==> forall|id2: u64, h2: u32|
            !(id2 == caller.unwrap() && h2 == handle) ==> final(manager).lookup_spec(id2, h2)
                == old(manager).lookup_spec(id2, h2),
        caller is Some ==> forall|id2: u64|
            id2 != caller.unwrap() ==> final(manager).lookup_spec(id2, handle) is None,
{
    let caller_id = match caller {
        Some(id) => id,
        None => {
            return 0;
        }
    };
    proof {
        old(manager).lemma_next_handle_unregistered();
    }
    let handle = manager.new_handle();
    let ghost mid = *manager;
    let permissions = I2cPermissions {
        can_read: true,
        can_write: true,
        is_whitelisted: false,
        addresses: Vec::new(),
    };
    manager.register(caller_id, handle, permissions);
    proof {
        assert forall|id2: u64| id2 != caller_id implies manager.lookup_spec(id2, handle)
            is None by {
            assert(manager.lookup_spec(id2, handle) == mid.lookup_spec(id2, handle));
            assert(mid.lookup_spec(id2, handle) == old(manager).lookup_spec(id2, handle));
            assert(old(manager).lookup_spec(id2, handle) is None);
        }
    }
    handle
}

/// Whether a write through `handle` would be authorized for `caller`:
/// the decision alone, with no effect on any state.
pub fn check_write_access(manager: &I2cManager, caller: Option<u64>, handle: u32) -> (ok: bool)
    ensures
        ok == write_permitted(*manager, caller, handle),
{
    let caller_id = match caller {
        Some(id) => id,
        None => {
            return false;
        }
    };
    match manager.get_permissions(caller_id, handle) {
        Some(p) => p.can_write,
        None => false,
    }
}

/// Whether a read through `handle` would be authorized for `caller`:
/// the decision alone, with no effect on any state.
pub fn check_read_access(manager: &I2cManager, caller: Option<u64>, handle: u32) -> (ok: bool)
    ensures
        ok == read_permitted(*manager, caller, handle),
{
    let caller_id = match caller {
        Some(id) => id,
        None => {
            return false;
        }
    };
    match manager.get_permissions(caller_id, handle) {
        Some(p) => p.can_read,
        None => false,
    }
}

/// Write `len` bytes taken from the caller's memory at `buffer_offset`
/// to the device at `addr`.
///
/// The protocol: resolve the caller, look the handle up under that
/// identity alone, enforce `can_write`, translate the buffer range, and
/// only then hand the bytes to the device. Each failure answers `Other`
/// and reaches the device in no way: the bus log is unchanged. On
/// success the device receives exactly the guest's bytes and the
/// all-zero success byte is returned.
pub fn write(
    manager: &I2cManager,
    bus: &mut I2cBus,
    mem: &GuestMemory,
    caller: Option<u64>,
    handle: u32,
    addr: u16,
    len: usize,
    buffer_offset: usize,
) -> (outcome: u8)
    ensures
        outcome == write_outcome(*manager, *mem, caller, handle, len as int, buffer_offset as int),
        outcome != ErrorCode::NoError.byte_spec() ==> *final(bus) == *old(bus),
        outcome == ErrorCode::NoError.byte_spec() ==> final(bus).reads@ == old(bus).reads@
            && final(bus).writes@.len() == old(bus).writes@.len() + 1
            && (forall|i: int|
                0 <= i < old(bus).writes@.len() ==> final(bus).writes@[i] == old(bus).writes@[i])
            && final(bus).writes@.last().addr == addr
            && final(bus).writes@.last().data@ == mem.data@.subrange(
                buffer_offset as int,
                buffer_offset as int + len as int,
            ),
{
    let caller_id = match caller {
        Some(id) => id,
        None => {
            return ErrorCode::Other.as_byte();
        }
    };
    let can_write = match manager.get_permissions(caller_id, handle) {
        Some(permissions) => permissions.can_write,
        None => {
            return ErrorCode::Other.as_byte();
        }
    };
    if !can_write {
        return ErrorCode::Other.as_byte();
    }
    if !mem.translate(buffer_offset as u64, len as u64) {
        return ErrorCode::Other.as_byte();
    }
    let data = mem.read_range(buffer_offset, len);
    let outcome = bus.write_transaction(addr, data);
    outcome
}

/// Read `len` bytes from the device at `addr` into the caller's memory
/// at `buffer_offset`.
///
/// The protocol mirrors `write`: resolve the caller, look the handle up
/// under that identity alone, enforce `can_read`, translate the buffer
/// range, and only then perform the device read. Each failure answers
/// `Other`, the bus log is unchanged and not one byte of guest memory
/// moves. On success exactly `len` device bytes land at
/// `buffer_offset`, the rest of guest memory is untouched, and the
/// all-zero success byte is returned.
pub fn read(
    manager: &I2cManager,
    bus: &mut I2cBus,
    mem: &mut GuestMemory,
    caller: Option<u64>,
    handle: u32,
    addr: u16,
    len: u64,
    buffer_offset: u32,
) -> (outcome: u8)
    ensures
        outcome == read_outcome(
            *manager,
            *old(mem),
            caller,
            handle,
            len as int,
            buffer_offset as int,
        ),
        outcome != ErrorCode::NoError.byte_spec() ==> *final(mem) == *old(mem) && *final(bus)
            == *old(bus),
        outcome == ErrorCode::NoError.byte_spec() ==> final(bus).writes@ == old(bus).writes@
            && final(bus).reads@.len() == old(bus).reads@.len() + 1
            && (forall|i: int|
                0 <= i < old(bus).reads@.len() ==> final(bus).reads@[i] == old(bus).reads@[i])
            && final(bus).reads@.last() == (BusRead { addr, len: len as usize }),
        outcome == ErrorCode::NoError.byte_spec() ==> final(mem).data@.len() == old(
            mem,
        ).data@.len() && (forall|j: int|
            buffer_offset <= j < buffer_offset + len ==> final(mem).data@[j] == stub_byte(
                j - buffer_offset,
            )) && (forall|j: int|
            0 <= j < old(mem).data@.len() && !(buffer_offset <= j < buffer_offset + len)
                ==> final(mem).data@[j] == old(mem).data@[j]),
{
    let caller_id = match caller {
        Some(id) => id,
        None => {
            return ErrorCode::Other.as_byte();
        }
    };
    let can_read = match manager.get_permissions(caller_id, handle) {
        Some(permissions) => permissions.can_read,
        None => {
            return ErrorCode::Other.as_byte();
        }
    };
    if !can_read {
        return ErrorCode::Other.as_byte();
    }
    if !mem.translate(buffer_offset as u64, len) {
        return ErrorCode::Other.as_byte();
    }
    let n: usize = mem.data.len();
    proof {
        assert(len as int <= n as int);
    }
    let requested: usize = len as usize;
    proof {
        assert(requested as int == len as int);
        assert(buffer_offset as int + requested as int <= n as int);
    }
    let data = bus.read_transaction(addr, requested);
    mem.write_range(buffer_offset as usize, &data);
    ErrorCode::NoError.as_byte()
}

} // verus!
