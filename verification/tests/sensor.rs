use microbit_core::command::Command;
use microbit_core::sensor::{
    check_identity, on_reading, on_status, IdentityMismatch, Plan, Reading, ACCELEROMETER_ADDR,
    ACCELEROMETER_ID, ACCELEROMETER_ID_REG, MAGNETOMETER_ADDR, MAGNETOMETER_ID,
    MAGNETOMETER_ID_REG,
};

#[test]
fn bus_constants() {
    assert_eq!(ACCELEROMETER_ADDR, 0b0011001);
    assert_eq!(MAGNETOMETER_ADDR, 0b0011110);
    assert_eq!(ACCELEROMETER_ID_REG, 0x0f);
    assert_eq!(MAGNETOMETER_ID_REG, 0x4f);
    assert_eq!(ACCELEROMETER_ID, 0b110011);
    assert_eq!(MAGNETOMETER_ID, 0b1000000);
}

#[test]
fn each_command_names_its_sensor() {
    assert_eq!(Command::Accelerometer.bus_address(), 0x19);
    assert_eq!(Command::Magnetometer.bus_address(), 0x1e);
    assert_eq!(Command::Accelerometer.id_register(), 0x0f);
    assert_eq!(Command::Magnetometer.id_register(), 0x4f);
    assert_eq!(Command::Accelerometer.expected_id(), 0x33);
    assert_eq!(Command::Magnetometer.expected_id(), 0x40);
    assert_eq!(Command::Accelerometer.label(), "Acceleration");
    assert_eq!(Command::Magnetometer.label(), "Magnetic Field");
}

#[test]
fn expected_chip_ids_pass() {
    assert_eq!(check_identity(0b110011, 0b1000000), Ok(()));
}

#[test]
fn wrong_accelerometer_id_is_refused() {
    assert_eq!(
        check_identity(0x32, 0x40),
        Err(IdentityMismatch { device: Command::Accelerometer, found: 0x32 })
    );
}

#[test]
fn wrong_magnetometer_id_is_refused() {
    assert_eq!(
        check_identity(0x33, 0x00),
        Err(IdentityMismatch { device: Command::Magnetometer, found: 0x00 })
    );
}

#[test]
fn accelerometer_is_judged_first() {
    assert_eq!(
        check_identity(0x40, 0x33),
        Err(IdentityMismatch { device: Command::Accelerometer, found: 0x40 })
    );
}

#[test]
fn no_chip_id_but_the_expected_pair_passes() {
    for accelerometer_id in 0..=255u8 {
        for magnetometer_id in 0..=255u8 {
            let verdict = check_identity(accelerometer_id, magnetometer_id);
            assert_eq!(verdict.is_ok(), accelerometer_id == 0x33 && magnetometer_id == 0x40);
        }
    }
}

#[test]
fn stale_status_gives_the_no_new_data_line() {
    assert_eq!(
        on_status(Command::Accelerometer, false),
        Plan::Reply(b"Acceleration: no new data\r\n".to_vec())
    );
    assert_eq!(
        on_status(Command::Magnetometer, false),
        Plan::Reply(b"Magnetic Field: no new data\r\n".to_vec())
    );
}

#[test]
fn stale_line_holds_no_digit() {
    for kind in [Command::Accelerometer, Command::Magnetometer] {
        match on_status(kind, false) {
            Plan::Reply(line) => assert!(line.iter().all(|byte| !byte.is_ascii_digit())),
            Plan::Fetch => panic!("a stale status must not fetch"),
        }
    }
}

#[test]
fn fresh_status_asks_for_the_sample() {
    assert_eq!(on_status(Command::Accelerometer, true), Plan::Fetch);
    assert_eq!(on_status(Command::Magnetometer, true), Plan::Fetch);
}

#[test]
fn acceleration_line() {
    let line = on_reading(Command::Accelerometer, Reading { x: 16, y: -48, z: 1008 });
    assert_eq!(line, b"Acceleration: x 16 y -48 z 1008\r\n".to_vec());
}

#[test]
fn magnetic_field_line() {
    let line = on_reading(Command::Magnetometer, Reading { x: -151500, y: 0, z: 7 });
    assert_eq!(line, b"Magnetic Field: x -151500 y 0 z 7\r\n".to_vec());
}

#[test]
fn extreme_values_are_written_in_full() {
    let line = on_reading(Command::Magnetometer, Reading { x: i32::MIN, y: i32::MAX, z: -1 });
    assert_eq!(line, b"Magnetic Field: x -2147483648 y 2147483647 z -1\r\n".to_vec());
}

#[test]
fn lines_agree_with_the_standard_formatter() {
    let values = [0, 1, -1, 9, 10, -10, 99, 100, 12345, -98765, i32::MAX, i32::MIN];
    for &x in &values {
        for &z in &values {
            let line = on_reading(Command::Accelerometer, Reading { x, y: z, z });
            assert_eq!(line, format!("Acceleration: x {} y {} z {}\r\n", x, z, z).into_bytes());
        }
    }
}
