use modbus_rtu_slave::register_map::{
    RegisterMap, COIL_COUNT, HOLDING_REG_COUNT, REG_HUMIDITY, REG_PRESSURE, REG_SETPOINT,
    REG_STATUS, REG_TEMPERATURE,
};

#[test]
fn new_map_is_cleared() {
    let m = RegisterMap::new();
    assert!(m.holding_regs.iter().all(|&v| v == 0));
    assert!(m.coils.iter().all(|&c| !c));
    assert_eq!(HOLDING_REG_COUNT, 64);
    assert_eq!(COIL_COUNT, 16);
}

#[test]
fn register_read_after_write() {
    let mut m = RegisterMap::new();
    assert!(m.write_reg(REG_SETPOINT, 200));
    assert_eq!(m.read_reg(REG_SETPOINT), Some(200));
    assert_eq!(m.read_reg(REG_TEMPERATURE), Some(0));
    assert!(m.write_reg(63, 7));
    assert_eq!(m.read_reg(63), Some(7));
}

#[test]
fn register_out_of_range() {
    let mut m = RegisterMap::new();
    assert!(!m.write_reg(64, 1));
    assert_eq!(m.read_reg(64), None);
    assert_eq!(m.read_reg(u16::MAX), None);
    assert!(m.holding_regs.iter().all(|&v| v == 0));
}

#[test]
fn coil_read_after_write_and_range() {
    let mut m = RegisterMap::new();
    assert!(m.write_coil(15, true));
    assert_eq!(m.read_coil(15), Some(true));
    assert_eq!(m.read_coil(14), Some(false));
    assert!(!m.write_coil(16, true));
    assert_eq!(m.read_coil(16), None);
}

#[test]
fn register_addresses() {
    assert_eq!(
        [REG_TEMPERATURE, REG_HUMIDITY, REG_PRESSURE, REG_SETPOINT, REG_STATUS],
        [0, 1, 2, 10, 20]
    );
}
