use modbus_rtu_slave::crc16::{crc16, generate_table};

#[test]
fn test_crc_known_frame() {
    // Known Modbus frame: slave=1, FC=3, start=0, count=2
    // CRC u16 = 0x0BC4, sent low byte first: 0xC4 then 0x0B
    // Frame on the wire: 01 03 00 00 00 02 C4 0B
    let frame = [0x01u8, 0x03, 0x00, 0x00, 0x00, 0x02];
    assert_eq!(crc16(&frame), 0x0BC4);
}

#[test]
fn crc_of_empty_input_is_initial_value() {
    assert_eq!(crc16(&[]), 0xFFFF);
}

#[test]
fn crc_of_read_three_registers_request() {
    // Request 01 03 00 00 00 03: CRC16/Modbus 0xCB05, sent as 05 CB.
    let frame = [0x01u8, 0x03, 0x00, 0x00, 0x00, 0x03];
    assert_eq!(crc16(&frame).to_le_bytes(), [0x05, 0xCB]);
}

#[test]
fn crc_check_value_123456789() {
    // The standard check value of CRC-16/MODBUS.
    assert_eq!(crc16(b"123456789"), 0x4B37);
}

#[test]
fn crc_of_frame_with_its_crc_is_zero() {
    let mut frame = vec![0x11u8, 0x06, 0x00, 0x01, 0x00, 0x03];
    let crc = crc16(&frame);
    frame.extend_from_slice(&crc.to_le_bytes());
    assert_eq!(crc16(&frame), 0x0000);
}

#[test]
fn table_entries() {
    let t = generate_table();
    assert_eq!(t[0], 0x0000);
    assert_eq!(t[1], 0xC0C1);
    assert_eq!(t[2], 0xC181);
    assert_eq!(t[255], 0x4040);
}
