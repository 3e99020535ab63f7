# modbus_rtu_slave

A Modbus RTU slave (FC01, FC03, FC06, FC16) with a 64-register / 16-coil
table, verified with Verus.

- `src/crc16.rs` — CRC16/Modbus by lookup table, proved equal to the
  bit-by-bit definition (init 0xFFFF, reflected polynomial 0xA001); a slave
  builds its table once and keeps it.
- `src/register_map.rs` — holding registers and coils, with range-checked
  reads and writes.
- `src/modbus_rtu.rs` — the wire format as spec functions, frame reassembly
  by inter-frame silence, address and CRC checks, the function codes, and
  register and coil access on the slave itself.
- `src/protocol_laws.rs` — properties across requests and replies: replies
  are intact frames, ignored frames change nothing, FC06 echoes, a write
  reads back, FC01 bit order.
- `src/frame_buf.rs` — the contracts relied on for `heapless::Vec<u8, 256>`,
  the reply buffer.
