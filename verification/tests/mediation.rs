use i2c_host::device::I2cBus;
use i2c_host::errors::ErrorCode;
use i2c_host::guest_mem::GuestMemory;
use i2c_host::mediation;
use i2c_host::registry::{I2cManager, I2cPermissions};

const SUCCESS: u8 = 0;

fn default_setup() -> (I2cManager, I2cBus, GuestMemory) {
    (I2cManager::new(), I2cBus::new(), GuestMemory::new(64))
}

#[test]
fn acquire_returns_one_first() {
    let (mut manager, _, _) = default_setup();
    let handle = mediation::open(&mut manager, Some(7));
    assert_eq!(handle, 1);
}

#[test]
fn acquire_handles_are_unique_per_identity() {
    let (mut manager, _, _) = default_setup();
    let a = mediation::open(&mut manager, Some(7));
    let b = mediation::open(&mut manager, Some(7));
    let c = mediation::open(&mut manager, Some(7));
    assert!(a != b && b != c && a != c);
    assert!(manager.get_permissions(7, a).is_some());
    assert!(manager.get_permissions(7, b).is_some());
    assert!(manager.get_permissions(7, c).is_some());
}

#[test]
fn acquire_with_unresolved_caller_returns_zero() {
    let (mut manager, _, _) = default_setup();
    assert_eq!(mediation::open(&mut manager, None), 0);
    assert!(manager.get_permissions(0, 0).is_none());
}

#[test]
fn acquire_then_write_then_read_round_trip() {
    let (mut manager, mut bus, _) = default_setup();
    let mut mem = GuestMemory::from_bytes(vec![
        0, 0, 0xDE, 0xAD, 0xBE, 0xEF, 0, 0, 0, 0, 0, 0, 0, 0, 0, 0,
    ]);
    let handle = mediation::open(&mut manager, Some(7));
    assert_eq!(handle, 1);

    let outcome = mediation::write(&manager, &mut bus, &mem, Some(7), handle, 0x50, 4, 2);
    assert_eq!(outcome, SUCCESS);
    assert_eq!(bus.writes.len(), 1);
    assert_eq!(bus.writes[0].addr, 0x50);
    assert_eq!(bus.writes[0].data, vec![0xDE, 0xAD, 0xBE, 0xEF]);

    let outcome = mediation::read(&manager, &mut bus, &mut mem, Some(7), handle, 0x50, 3, 8);
    assert_eq!(outcome, SUCCESS);
    assert_eq!(&mem.data[8..11], &[0x11, 0xAB, 0xCD]);
    assert_eq!(mem.data[7], 0);
    assert_eq!(mem.data[11], 0);
    assert_eq!(bus.reads.len(), 1);
    assert_eq!(bus.reads[0].addr, 0x50);
    assert_eq!(bus.reads[0].len, 3);
}

#[test]
fn write_with_unregistered_handle_fails_untouched() {
    let (manager, mut bus, mem) = default_setup();
    let before = mem.data.clone();
    let outcome = mediation::write(&manager, &mut bus, &mem, Some(7), 999, 0x50, 4, 0);
    assert_eq!(outcome, ErrorCode::Other.as_byte());
    assert!(bus.writes.is_empty());
    assert!(bus.reads.is_empty());
    assert_eq!(mem.data, before);
}

#[test]
fn read_with_unregistered_handle_fails_untouched() {
    let (manager, mut bus, mut mem) = default_setup();
    let before = mem.data.clone();
    let outcome = mediation::read(&manager, &mut bus, &mut mem, Some(7), 999, 0x50, 4, 0);
    assert_eq!(outcome, ErrorCode::Other.as_byte());
    assert!(bus.writes.is_empty());
    assert!(bus.reads.is_empty());
    assert_eq!(mem.data, before);
}

#[test]
fn write_without_write_permission_never_reaches_device() {
    let (mut manager, mut bus, mem) = default_setup();
    let handle = manager.new_handle();
    manager.register(
        7,
        handle,
        I2cPermissions {
            can_read: true,
            can_write: false,
            is_whitelisted: false,
            addresses: Vec::new(),
        },
    );
    let outcome = mediation::write(&manager, &mut bus, &mem, Some(7), handle, 0x50, 4, 0);
    assert_eq!(outcome, ErrorCode::Other.as_byte());
    assert!(bus.writes.is_empty());
    assert!(!mediation::check_write_access(&manager, Some(7), handle));
    assert!(mediation::check_read_access(&manager, Some(7), handle));
}

#[test]
fn read_without_read_permission_leaves_memory_alone() {
    let (mut manager, mut bus, mut mem) = default_setup();
    let handle = manager.new_handle();
    manager.register(
        7,
        handle,
        I2cPermissions {
            can_read: false,
            can_write: true,
            is_whitelisted: false,
            addresses: Vec::new(),
        },
    );
    let before = mem.data.clone();
    let outcome = mediation::read(&manager, &mut bus, &mut mem, Some(7), handle, 0x50, 4, 0);
    assert_eq!(outcome, ErrorCode::Other.as_byte());
    assert!(bus.reads.is_empty());
    assert_eq!(mem.data, before);
    assert!(!mediation::check_read_access(&manager, Some(7), handle));
    assert!(mediation::check_write_access(&manager, Some(7), handle));
}

#[test]
fn handle_of_one_identity_means_nothing_to_another() {
    let (mut manager, mut bus, mut mem) = default_setup();
    let handle = mediation::open(&mut manager, Some(1));
    assert_eq!(mediation::write(&manager, &mut bus, &mem, Some(1), handle, 0x50, 1, 0), SUCCESS);
    let outcome = mediation::write(&manager, &mut bus, &mem, Some(2), handle, 0x50, 1, 0);
    assert_eq!(outcome, ErrorCode::Other.as_byte());
    let outcome = mediation::read(&manager, &mut bus, &mut mem, Some(2), handle, 0x50, 1, 0);
    assert_eq!(outcome, ErrorCode::Other.as_byte());
    assert_eq!(bus.writes.len(), 1);
    assert!(bus.reads.is_empty());
}

#[test]
fn translation_failure_short_circuits_before_the_device() {
    let (mut manager, mut bus, mut mem) = default_setup();
    let handle = mediation::open(&mut manager, Some(7));
    let before = mem.data.clone();

    let outcome = mediation::write(&manager, &mut bus, &mem, Some(7), handle, 0x50, 4, 62);
    assert_eq!(outcome, ErrorCode::Other.as_byte());
    let outcome = mediation::write(&manager, &mut bus, &mem, Some(7), handle, 0x50, 1, 64);
    assert_eq!(outcome, ErrorCode::Other.as_byte());
    assert!(bus.writes.is_empty());

    let outcome = mediation::read(&manager, &mut bus, &mut mem, Some(7), handle, 0x50, 4, 62);
    assert_eq!(outcome, ErrorCode::Other.as_byte());
    let outcome = mediation::read(&manager, &mut bus, &mut mem, Some(7), handle, 0x50, 65, 0);
    assert_eq!(outcome, ErrorCode::Other.as_byte());
    assert!(bus.reads.is_empty());
    assert_eq!(mem.data, before);
}

#[test]
fn range_ending_exactly_at_the_memory_edge_translates() {
    let (mut manager, mut bus, mut mem) = default_setup();
    let handle = mediation::open(&mut manager, Some(7));
    assert_eq!(mediation::write(&manager, &mut bus, &mem, Some(7), handle, 0x50, 4, 60), SUCCESS);
    assert_eq!(mediation::read(&manager, &mut bus, &mut mem, Some(7), handle, 0x50, 4, 60), SUCCESS);
}

#[test]
fn unresolved_caller_is_rejected_for_write_and_read() {
    let (mut manager, mut bus, mut mem) = default_setup();
    let handle = mediation::open(&mut manager, Some(7));
    let before = mem.data.clone();
    assert_eq!(
        mediation::write(&manager, &mut bus, &mem, None, handle, 0x50, 1, 0),
        ErrorCode::Other.as_byte()
    );
    assert_eq!(
        mediation::read(&manager, &mut bus, &mut mem, None, handle, 0x50, 1, 0),
        ErrorCode::Other.as_byte()
    );
    assert!(bus.writes.is_empty());
    assert!(bus.reads.is_empty());
    assert_eq!(mem.data, before);
}

#[test]
fn device_read_pattern_repeats_to_the_requested_length() {
    let (mut manager, mut bus, mut mem) = default_setup();
    let handle = mediation::open(&mut manager, Some(7));
    let outcome = mediation::read(&manager, &mut bus, &mut mem, Some(7), handle, 0x2A, 7, 0);
    assert_eq!(outcome, SUCCESS);
    assert_eq!(&mem.data[0..7], &[0x11, 0xAB, 0xCD, 0x11, 0xAB, 0xCD, 0x11]);
    assert_eq!(mem.data[7], 0);
}

#[test]
fn zero_length_read_writes_nothing() {
    let (mut manager, mut bus, mut mem) = default_setup();
    let handle = mediation::open(&mut manager, Some(7));
    let before = mem.data.clone();
    let outcome = mediation::read(&manager, &mut bus, &mut mem, Some(7), handle, 0x50, 0, 5);
    assert_eq!(outcome, SUCCESS);
    assert_eq!(mem.data, before);
    assert_eq!(bus.reads.len(), 1);
    assert_eq!(bus.reads[0].len, 0);
}

#[test]
fn the_failure_sentinel_zero_is_never_a_valid_handle() {
    let (mut manager, mut bus, mem) = default_setup();
    for id in 1..5u64 {
        mediation::open(&mut manager, Some(id));
        assert!(manager.get_permissions(id, 0).is_none());
    }
    assert_eq!(
        mediation::write(&manager, &mut bus, &mem, Some(1), 0, 0x50, 1, 0),
        ErrorCode::Other.as_byte()
    );
}

#[test]
fn each_identity_uses_its_own_handle() {
    let (mut manager, mut bus, mut mem) = default_setup();
    let first = mediation::open(&mut manager, Some(1));
    let second = mediation::open(&mut manager, Some(2));
    assert_ne!(first, second);
    assert_eq!(mediation::write(&manager, &mut bus, &mem, Some(1), first, 0x50, 2, 0), SUCCESS);
    assert_eq!(
        mediation::read(&manager, &mut bus, &mut mem, Some(2), second, 0x51, 2, 8),
        SUCCESS
    );
    assert_eq!(
        mediation::write(&manager, &mut bus, &mem, Some(1), second, 0x50, 2, 0),
        ErrorCode::Other.as_byte()
    );
    assert_eq!(bus.writes.len(), 1);
    assert_eq!(bus.reads.len(), 1);
}

#[test]
fn outcome_bytes_are_zero_for_success_and_nonzero_for_other() {
    assert_eq!(ErrorCode::NoError.as_byte(), 0);
    assert_ne!(ErrorCode::Other.as_byte(), 0);
    assert_eq!(ErrorCode::Other.as_byte(), 1);
}

#[test]
fn fresh_guest_memory_is_zeroed() {
    let mem = GuestMemory::new(8);
    assert_eq!(mem.data, vec![0; 8]);
    let mem = GuestMemory::new(0);
    assert!(mem.data.is_empty());
}
