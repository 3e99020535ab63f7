pub mod frame_buf;
pub mod crc16;
pub mod register_map;
pub mod modbus_rtu;
pub mod protocol_laws;
pub mod request_laws;
