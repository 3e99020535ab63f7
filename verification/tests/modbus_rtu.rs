use heapless::Vec;
use modbus_rtu_slave::crc16::crc16;
use modbus_rtu_slave::modbus_rtu::{ModbusException, ModbusRtuSlave};

fn make_slave() -> ModbusRtuSlave {
    let mut slave = ModbusRtuSlave::new(0x01);
    // Simulated initial values
    slave.regs.write_reg(0, 235); // temperature 23.5°C
    slave.regs.write_reg(1, 650); // humidity 65.0%
    slave.regs.write_reg(2, 1013); // pressure 1013 hPa
    slave
}

/// Builds a complete frame, appending its CRC.
fn build_frame(data: &[u8]) -> Vec<u8, 256> {
    let mut frame: Vec<u8, 256> = Vec::new();
    let _ = frame.extend_from_slice(data);
    let crc = crc16(data);
    let _ = frame.extend_from_slice(&crc.to_le_bytes());
    frame
}

fn feed_frame(slave: &mut ModbusRtuSlave, frame: &[u8]) -> Option<Vec<u8, 256>> {
    for (i, &byte) in frame.iter().enumerate() {
        slave.process_byte(byte, i as u32);
    }
    // 3.5T silence: a tick far away
    let silence_tick = frame.len() as u32 + 10;
    slave.process_byte(0x00, silence_tick)
}

fn crc_is_intact(resp: &[u8]) -> bool {
    let n = resp.len();
    n >= 2 && crc16(&resp[..n - 2]).to_le_bytes() == [resp[n - 2], resp[n - 1]]
}

#[test]
fn test_fc03_read_3_regs() {
    let mut slave = make_slave();
    // Request: addr=1, FC=03, start=0, count=3
    let request = build_frame(&[0x01u8, 0x03, 0x00, 0x00, 0x00, 0x03]);
    let resp = feed_frame(&mut slave, &request).expect("pas de réponse");

    assert_eq!(resp[0], 0x01);
    assert_eq!(resp[1], 0x03);
    assert_eq!(resp[2], 0x06); // 3 registers × 2 bytes
    assert_eq!(u16::from_be_bytes([resp[3], resp[4]]), 235);
    assert_eq!(u16::from_be_bytes([resp[5], resp[6]]), 650);
    assert_eq!(u16::from_be_bytes([resp[7], resp[8]]), 1013);
}

#[test]
fn test_fc06_write_reg() {
    let mut slave = make_slave();
    // Request: addr=1, FC=06, reg=10, value=180
    let request = build_frame(&[0x01u8, 0x06, 0x00, 0x0A, 0x00, 0xB4]);
    let resp = feed_frame(&mut slave, &request).expect("pas de réponse");

    assert_eq!(resp[0], 0x01);
    assert_eq!(resp[1], 0x06);
    assert_eq!(u16::from_be_bytes([resp[2], resp[3]]), 10);
    assert_eq!(u16::from_be_bytes([resp[4], resp[5]]), 180);
    assert_eq!(slave.regs.read_reg(10), Some(180));
}

#[test]
fn test_crc_invalide_silence() {
    let mut slave = make_slave();
    // FC03 frame with a deliberately wrong CRC
    let request = [0x01u8, 0x03, 0x00, 0x00, 0x00, 0x03, 0xFF, 0xFF];
    let resp = feed_frame(&mut slave, &request);
    assert!(resp.is_none(), "CRC invalide doit produire silence");
}

#[test]
fn test_mauvaise_adresse_silence() {
    let mut slave = make_slave();
    // Request for slave 2, not 1
    let request = build_frame(&[0x02u8, 0x03, 0x00, 0x00, 0x00, 0x03]);
    let resp = feed_frame(&mut slave, &request);
    assert!(resp.is_none(), "mauvaise adresse doit produire silence");
}

#[test]
fn test_fc01_read_coils() {
    let mut slave = make_slave();
    // Coils 0 and 2 on
    slave.regs.write_coil(0, true);
    slave.regs.write_coil(1, false);
    slave.regs.write_coil(2, true);

    let request = build_frame(&[0x01u8, 0x01, 0x00, 0x00, 0x00, 0x03]);
    let resp = feed_frame(&mut slave, &request).expect("pas de réponse");

    assert_eq!(resp[0], 0x01);
    assert_eq!(resp[1], 0x01);
    assert_eq!(resp[2], 0x01); // 3 coils → 1 byte
    // coil0=1, coil1=0, coil2=1 → LSB first → 0b00000101
    assert_eq!(resp[3], 0x05);
}

#[test]
fn test_fc16_write_multiple_regs() {
    let mut slave = make_slave();
    // Two registers from address 10: values 100 and 200
    let request = build_frame(&[
        0x01u8, 0x10, //
        0x00, 0x0A, // start = 10
        0x00, 0x02, // count = 2
        0x04, // byte_count = 4
        0x00, 0x64, // reg[10] = 100
        0x00, 0xC8, // reg[11] = 200
    ]);
    let resp = feed_frame(&mut slave, &request).expect("pas de réponse");

    assert_eq!(resp[0], 0x01);
    assert_eq!(resp[1], 0x10);
    assert_eq!(u16::from_be_bytes([resp[2], resp[3]]), 10);
    assert_eq!(u16::from_be_bytes([resp[4], resp[5]]), 2);
    assert_eq!(slave.regs.read_reg(10), Some(100));
    assert_eq!(slave.regs.read_reg(11), Some(200));
}

#[test]
fn test_fc_inconnu_exception() {
    let mut slave = make_slave();
    // FC 0x99 does not exist → exception 0x01 IllegalFunction
    let request = build_frame(&[0x01u8, 0x99, 0x00, 0x00, 0x00, 0x01]);
    let resp = feed_frame(&mut slave, &request).expect("pas de réponse");

    assert_eq!(resp[0], 0x01);
    assert_eq!(resp[1], 0x99 | 0x80);
    assert_eq!(resp[2], 0x01);
}

// ---------------------------------------------------------------------------

#[test]
fn fc03_reply_is_exact_and_crc_intact() {
    let mut slave = make_slave();
    let request = build_frame(&[0x01u8, 0x03, 0x00, 0x00, 0x00, 0x03]);
    let resp = feed_frame(&mut slave, &request).unwrap();
    assert_eq!(resp.len(), 11);
    assert_eq!(&resp[..9], &[0x01, 0x03, 0x06, 0x00, 0xEB, 0x02, 0x8A, 0x03, 0xF5]);
    assert!(crc_is_intact(&resp));
}

#[test]
fn fc03_count_zero_is_illegal_value() {
    let mut slave = make_slave();
    let request = build_frame(&[0x01u8, 0x03, 0x00, 0x00, 0x00, 0x00]);
    let resp = feed_frame(&mut slave, &request).unwrap();
    assert_eq!(&resp[..3], &[0x01, 0x83, 0x03]);
    assert_eq!(resp.len(), 5);
    assert!(crc_is_intact(&resp));
}

#[test]
fn fc03_count_126_is_illegal_value() {
    let mut slave = make_slave();
    let request = build_frame(&[0x01u8, 0x03, 0x00, 0x00, 0x00, 126]);
    let resp = feed_frame(&mut slave, &request).unwrap();
    assert_eq!(&resp[..3], &[0x01, 0x83, 0x03]);
}

#[test]
fn fc03_past_the_end_is_illegal_address() {
    let mut slave = make_slave();
    let request = build_frame(&[0x01u8, 0x03, 0x00, 63, 0x00, 0x02]);
    let resp = feed_frame(&mut slave, &request).unwrap();
    assert_eq!(&resp[..3], &[0x01, 0x83, 0x02]);
    // The last register alone is readable.
    let request = build_frame(&[0x01u8, 0x03, 0x00, 63, 0x00, 0x01]);
    let resp = feed_frame(&mut slave, &request).unwrap();
    assert_eq!(&resp[..5], &[0x01, 0x03, 0x02, 0x00, 0x00]);
}

#[test]
fn fc03_max_count_fits_buffer() {
    let mut slave = make_slave();
    let request = build_frame(&[0x01u8, 0x03, 0x00, 0x00, 0x00, 64]);
    let resp = feed_frame(&mut slave, &request).unwrap();
    assert_eq!(resp.len(), 3 + 128 + 2);
    assert_eq!(resp[2], 128);
    assert!(crc_is_intact(&resp));
}

#[test]
fn fc01_coils_over_two_bytes() {
    let mut slave = make_slave();
    for c in [0u16, 7, 8, 15] {
        slave.regs.write_coil(c, true);
    }
    let request = build_frame(&[0x01u8, 0x01, 0x00, 0x00, 0x00, 16]);
    let resp = feed_frame(&mut slave, &request).unwrap();
    assert_eq!(&resp[..5], &[0x01, 0x01, 0x02, 0x81, 0x81]);
    assert!(crc_is_intact(&resp));
    // Nine coils from 7: 7, 8 on, then 9..=14 off, 15 on.
    let request = build_frame(&[0x01u8, 0x01, 0x00, 0x07, 0x00, 0x09]);
    let resp = feed_frame(&mut slave, &request).unwrap();
    assert_eq!(&resp[..5], &[0x01, 0x01, 0x02, 0x03, 0x01]);
}

#[test]
fn fc01_errors() {
    let mut slave = make_slave();
    let request = build_frame(&[0x01u8, 0x01, 0x00, 0x00, 0x00, 0x00]);
    let resp = feed_frame(&mut slave, &request).unwrap();
    assert_eq!(&resp[..3], &[0x01, 0x81, 0x03]);
    let request = build_frame(&[0x01u8, 0x01, 0x00, 0x00, 0x07, 0xD1]); // 2001
    let resp = feed_frame(&mut slave, &request).unwrap();
    assert_eq!(&resp[..3], &[0x01, 0x81, 0x03]);
    let request = build_frame(&[0x01u8, 0x01, 0x00, 0x0F, 0x00, 0x02]);
    let resp = feed_frame(&mut slave, &request).unwrap();
    assert_eq!(&resp[..3], &[0x01, 0x81, 0x02]);
    let request = build_frame(&[0x01u8, 0x01, 0xFF, 0xFF, 0x07, 0xD0]);
    let resp = feed_frame(&mut slave, &request).unwrap();
    assert_eq!(&resp[..3], &[0x01, 0x81, 0x02]);
}

#[test]
fn fc06_reply_echoes_request_and_out_of_range() {
    let mut slave = make_slave();
    let request = build_frame(&[0x01u8, 0x06, 0x00, 0x14, 0x00, 0x03]);
    let resp = feed_frame(&mut slave, &request).unwrap();
    assert_eq!(&resp[..], &request[..]);
    assert_eq!(slave.regs.read_reg(20), Some(3));

    let request = build_frame(&[0x01u8, 0x06, 0x00, 0x40, 0x12, 0x34]);
    let resp = feed_frame(&mut slave, &request).unwrap();
    assert_eq!(&resp[..3], &[0x01, 0x86, 0x02]);
    assert_eq!(resp.len(), 5);
}

#[test]
fn fc16_errors_and_partial_write() {
    let mut slave = make_slave();
    // byte count disagrees with the quantity
    let request = build_frame(&[0x01u8, 0x10, 0x00, 0x00, 0x00, 0x01, 0x03, 0x00, 0x05]);
    let resp = feed_frame(&mut slave, &request).unwrap();
    assert_eq!(&resp[..3], &[0x01, 0x90, 0x03]);
    assert_eq!(slave.regs.read_reg(0), Some(235));

    // Registers 63 and 64: 63 is written, then the write to 64 fails.
    let request = build_frame(&[0x01u8, 0x10, 0x00, 63, 0x00, 0x02, 0x04, 0x00, 0x09, 0x00, 0x0A]);
    let resp = feed_frame(&mut slave, &request).unwrap();
    assert_eq!(&resp[..3], &[0x01, 0x90, 0x02]);
    assert_eq!(slave.regs.read_reg(63), Some(9));
}

#[test]
fn fc16_reply_is_header_with_crc() {
    let mut slave = make_slave();
    let request = build_frame(&[0x01u8, 0x10, 0x00, 0x00, 0x00, 0x01, 0x02, 0x01, 0x02]);
    let resp = feed_frame(&mut slave, &request).unwrap();
    assert_eq!(resp.len(), 8);
    assert_eq!(&resp[..6], &[0x01, 0x10, 0x00, 0x00, 0x00, 0x01]);
    assert!(crc_is_intact(&resp));
    assert_eq!(slave.regs.read_reg(0), Some(0x0102));
}

#[test]
fn short_frame_is_ignored() {
    let mut slave = make_slave();
    let resp = feed_frame(&mut slave, &[0x01, 0x03, 0x00, 0x00, 0x00]);
    assert!(resp.is_none());
}

#[test]
fn no_reply_without_silence() {
    let mut slave = ModbusRtuSlave::new(1);
    let request = build_frame(&[0x01u8, 0x03, 0x00, 0x00, 0x00, 0x01]);
    for &b in request.iter() {
        assert!(slave.process_byte(b, 100).is_none());
    }
    // Three ticks of silence are not enough; four are.
    assert!(slave.process_byte(0x01, 103).is_none());
    let mut slave = ModbusRtuSlave::new(1);
    for &b in request.iter() {
        slave.process_byte(b, 100);
    }
    assert!(slave.process_byte(0x01, 104).is_some());
}

#[test]
fn silence_counts_across_tick_wraparound() {
    let mut slave = ModbusRtuSlave::new(1);
    let request = build_frame(&[0x01u8, 0x03, 0x00, 0x00, 0x00, 0x01]);
    for &b in request.iter() {
        slave.process_byte(b, u32::MAX - 1);
    }
    let resp = slave.process_byte(0x00, 2).unwrap();
    assert_eq!(&resp[..3], &[0x01, 0x03, 0x02]);
}

#[test]
fn byte_after_silence_starts_next_frame() {
    let mut slave = make_slave();
    let request = build_frame(&[0x01u8, 0x03, 0x00, 0x01, 0x00, 0x01]);
    for (i, &b) in request.iter().enumerate() {
        slave.process_byte(b, i as u32);
    }
    // The first byte of the next request ends the previous one.
    let second = build_frame(&[0x01u8, 0x03, 0x00, 0x02, 0x00, 0x01]);
    let resp = slave.process_byte(second[0], 50).unwrap();
    assert_eq!(u16::from_be_bytes([resp[3], resp[4]]), 650);
    for &b in second[1..].iter() {
        slave.process_byte(b, 51);
    }
    let resp = slave.process_byte(0x00, 100).unwrap();
    assert_eq!(u16::from_be_bytes([resp[3], resp[4]]), 1013);
}

#[test]
fn overlong_frame_keeps_first_256_bytes() {
    let mut slave = make_slave();
    let request = build_frame(&[0x01u8, 0x03, 0x00, 0x00, 0x00, 0x01]);
    for &b in request.iter() {
        slave.process_byte(b, 0);
    }
    for _ in 0..300 {
        slave.process_byte(0xAA, 0);
    }
    // 256 bytes whose CRC does not check: silence.
    assert!(slave.process_byte(0x00, 10).is_none());
}

#[test]
fn exception_codes() {
    assert_eq!(ModbusException::IllegalFunction.code(), 0x01);
    assert_eq!(ModbusException::IllegalDataAddress.code(), 0x02);
    assert_eq!(ModbusException::IllegalDataValue.code(), 0x03);
    assert_eq!(ModbusException::ServerDeviceFailure.code(), 0x04);
}

#[test]
fn fc06_then_fc03_reads_back_value() {
    let mut slave = make_slave();
    let write = build_frame(&[0x01u8, 0x06, 0x00, 0x05, 0xAB, 0xCD]);
    feed_frame(&mut slave, &write).unwrap();
    let read = build_frame(&[0x01u8, 0x03, 0x00, 0x05, 0x00, 0x01]);
    let resp = feed_frame(&mut slave, &read).unwrap();
    assert_eq!(&resp[..], &build_frame(&[0x01, 0x03, 0x02, 0xAB, 0xCD])[..]);
}

#[test]
fn reads_leave_registers_unchanged() {
    let mut slave = make_slave();
    let before = slave.regs.holding_regs;
    let request = build_frame(&[0x01u8, 0x03, 0x00, 0x00, 0x00, 0x0A]);
    feed_frame(&mut slave, &request).unwrap();
    let request = build_frame(&[0x01u8, 0x01, 0x00, 0x00, 0x00, 0x0A]);
    feed_frame(&mut slave, &request).unwrap();
    assert_eq!(slave.regs.holding_regs, before);
}

#[test]
fn truncated_fc16_frame_is_reported() {
    // Quantity 3 with 6 data bytes announced, but only one value sent.
    let request = build_frame(&[0x01u8, 0x10, 0x00, 0x00, 0x00, 0x03, 0x06, 0x00, 0x05]);
    let mut slave = make_slave();
    for &b in request.iter() {
        assert!(slave.can_process_byte(0));
        slave.process_byte(b, 0);
    }
    assert!(slave.can_process_byte(3));
    assert!(!slave.can_process_byte(10));

    // The same announcement with all three values is fine.
    let request = build_frame(&[
        0x01u8, 0x10, 0x00, 0x00, 0x00, 0x03, 0x06, 0x00, 0x05, 0x00, 0x06, 0x00, 0x07,
    ]);
    let mut slave = make_slave();
    for &b in request.iter() {
        slave.process_byte(b, 0);
    }
    assert!(slave.can_process_byte(10));
    let resp = slave.process_byte(0, 10).unwrap();
    assert_eq!(resp[1], 0x10);
    assert_eq!(slave.regs.read_reg(2), Some(7));

    // An FC16 frame with no byte-count field.
    let request = build_frame(&[0x01u8, 0x10, 0x00, 0x00]);
    let mut slave = make_slave();
    for &b in request.iter() {
        slave.process_byte(b, 0);
    }
    assert!(!slave.can_process_byte(10));
}

#[test]
fn slave_register_access() {
    let mut slave = ModbusRtuSlave::new(0x07);
    assert_eq!(slave.address(), 0x07);
    assert!(slave.write_reg(10, 200));
    assert_eq!(slave.read_reg(10), Some(200));
    assert!(!slave.write_reg(64, 1));
    assert_eq!(slave.read_reg(64), None);
    assert!(slave.write_coil(3, true));
    assert_eq!(slave.read_coil(3), Some(true));
    assert!(!slave.write_coil(16, true));
    assert_eq!(slave.read_coil(16), None);
    // The master sees what the application wrote.
    let request = build_frame(&[0x07u8, 0x03, 0x00, 0x0A, 0x00, 0x01]);
    let resp = feed_frame(&mut slave, &request).unwrap();
    assert_eq!(&resp[..5], &[0x07, 0x03, 0x02, 0x00, 200]);
}

#[test]
fn discard_frame_recovers_from_truncated_request() {
    let request = build_frame(&[0x01u8, 0x10, 0x00, 0x00, 0x00, 0x03, 0x06, 0x00, 0x05]);
    let mut slave = make_slave();
    for &b in request.iter() {
        slave.process_byte(b, 0);
    }
    assert!(!slave.can_process_byte(10));
    slave.discard_frame();
    assert!(slave.can_process_byte(10));
    let next = build_frame(&[0x01u8, 0x03, 0x00, 0x00, 0x00, 0x01]);
    let resp = feed_frame(&mut slave, &next).unwrap();
    assert_eq!(u16::from_be_bytes([resp[3], resp[4]]), 235);
}
