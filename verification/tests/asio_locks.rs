//! Exclusive use of ASIO drivers.

use openaudio::asio_locks::{
    release_asio_device, reserve_asio_device, AsioDeviceLocks, EMPTY_DRIVER_NAME,
};

#[test]
fn asio_device_lock_rejects_duplicate_driver() {
    let mut locks = AsioDeviceLocks::new();
    let driver = "duplicate-lock-test";
    release_asio_device(&mut locks, driver);

    assert!(reserve_asio_device(&mut locks, driver).is_ok());
    assert!(reserve_asio_device(&mut locks, driver).is_err());

    release_asio_device(&mut locks, driver);
}

#[test]
fn released_driver_can_be_reserved_again() {
    let mut locks = AsioDeviceLocks::new();
    assert!(reserve_asio_device(&mut locks, "Console").is_ok());
    release_asio_device(&mut locks, "Console");
    assert!(reserve_asio_device(&mut locks, "Console").is_ok());
}

#[test]
fn white_space_around_a_driver_name_does_not_matter() {
    let mut locks = AsioDeviceLocks::new();
    assert!(reserve_asio_device(&mut locks, " Console ").is_ok());
    let answer = reserve_asio_device(&mut locks, "\tConsole");
    assert_eq!(
        answer,
        Err(
            "ASIO driver 'Console' is already in use by another OpenAudio ASIO session. Stop the \
             other ASIO publish or subscribe session before starting a new one."
                .to_string()
        )
    );
    release_asio_device(&mut locks, "Console\n");
    assert!(reserve_asio_device(&mut locks, "Console").is_ok());
}

#[test]
fn blank_driver_name_is_refused_and_released_without_effect() {
    let mut locks = AsioDeviceLocks::new();
    assert_eq!(reserve_asio_device(&mut locks, "  "), Err(EMPTY_DRIVER_NAME.to_string()));
    assert_eq!(reserve_asio_device(&mut locks, ""), Err("ASIO driver name is empty".to_string()));
    assert!(reserve_asio_device(&mut locks, "A").is_ok());
    release_asio_device(&mut locks, " ");
    assert!(reserve_asio_device(&mut locks, "A").is_err());
}

#[test]
fn drivers_are_reserved_independently() {
    let mut locks = AsioDeviceLocks::new();
    assert!(reserve_asio_device(&mut locks, "A").is_ok());
    assert!(reserve_asio_device(&mut locks, "B").is_ok());
    release_asio_device(&mut locks, "A");
    assert!(reserve_asio_device(&mut locks, "B").is_err());
    assert!(reserve_asio_device(&mut locks, "A").is_ok());
}

#[test]
fn a_second_release_changes_nothing() {
    let mut locks = AsioDeviceLocks::new();
    assert!(reserve_asio_device(&mut locks, "A").is_ok());
    assert!(reserve_asio_device(&mut locks, "B").is_ok());
    release_asio_device(&mut locks, "A");
    release_asio_device(&mut locks, "A");
    assert!(reserve_asio_device(&mut locks, "B").is_err());
    assert!(reserve_asio_device(&mut locks, "A").is_ok());
}
