use i2c_host::registry::{I2cManager, I2cPermissions};

#[test]
fn new_manager_has_no_entries() {
    let manager = I2cManager::new();
    assert_eq!(manager.next_handle, 1);
    assert!(manager.get_permissions(1, 1).is_none());
    assert!(manager.get_permissions(0, 0).is_none());
    assert!(manager.get_permissions(42, 999).is_none());
}

#[test]
fn new_handle_counts_up_from_one() {
    let mut manager = I2cManager::new();
    assert_eq!(manager.new_handle(), 1);
    assert_eq!(manager.new_handle(), 2);
    assert_eq!(manager.new_handle(), 3);
}

#[test]
fn registered_handle_is_found_only_under_its_identity() {
    let mut manager = I2cManager::new();
    let handle = manager.new_handle();
    let perms = I2cPermissions {
        can_read: true,
        can_write: false,
        is_whitelisted: false,
        addresses: Vec::new(),
    };
    manager.register(7, handle, perms);
    let found = manager.get_permissions(7, handle).expect("registered handle");
    assert!(found.can_read);
    assert!(!found.can_write);
    assert!(!found.is_whitelisted);
    assert!(found.addresses.is_empty());
    assert!(manager.get_permissions(8, handle).is_none());
    assert!(manager.get_permissions(7, handle + 1).is_none());
}

#[test]
fn reregistering_a_handle_overwrites_its_permissions() {
    let mut manager = I2cManager::new();
    let handle = manager.new_handle();
    manager.register(
        7,
        handle,
        I2cPermissions {
            can_read: true,
            can_write: true,
            is_whitelisted: false,
            addresses: Vec::new(),
        },
    );
    manager.register(
        7,
        handle,
        I2cPermissions {
            can_read: false,
            can_write: true,
            is_whitelisted: true,
            addresses: vec![0x50, 0x51],
        },
    );
    let found = manager.get_permissions(7, handle).expect("registered handle");
    assert!(!found.can_read);
    assert!(found.can_write);
    assert!(found.is_whitelisted);
    assert_eq!(found.addresses, vec![0x50, 0x51]);
}

#[test]
fn handles_of_two_identities_stay_apart() {
    let mut manager = I2cManager::new();
    let first = manager.new_handle();
    manager.register(
        1,
        first,
        I2cPermissions {
            can_read: true,
            can_write: true,
            is_whitelisted: false,
            addresses: Vec::new(),
        },
    );
    let second = manager.new_handle();
    manager.register(
        2,
        second,
        I2cPermissions {
            can_read: false,
            can_write: false,
            is_whitelisted: false,
            addresses: Vec::new(),
        },
    );
    assert_ne!(first, second);
    assert!(manager.get_permissions(1, first).unwrap().can_read);
    assert!(!manager.get_permissions(2, second).unwrap().can_read);
    assert!(manager.get_permissions(1, second).is_none());
    assert!(manager.get_permissions(2, first).is_none());
}
