//! Modbus RTU slave: frame reassembly by inter-frame silence, address and CRC
//! checks, and the function codes FC01, FC03, FC06 and FC16.
use vstd::prelude::*;

use crate::crc16::{crc16_with_table, generate_table, is_crc_table, spec_crc16};
use crate::frame_buf::{frame_as_slice, frame_bytes, frame_extend, frame_new, frame_push};
use crate::register_map::{read_at, write_at, RegisterMap, COIL_COUNT, HOLDING_REG_COUNT};

verus! {

/// Silence, in ticks, that ends a frame (about 3.5 characters at 9600 baud).
const INTER_FRAME_TICKS: u32 = 4;

/// Modbus exception codes.
#[derive(Debug, Clone, Copy)]
pub enum ModbusException {
    IllegalFunction,
    IllegalDataAddress,
    IllegalDataValue,
    ServerDeviceFailure,
}

impl ModbusException {
    /// The code carried on the wire.
    pub open spec fn spec_code(self) -> u8 {
        match self {
            ModbusException::IllegalFunction => 0x01,
            ModbusException::IllegalDataAddress => 0x02,
            ModbusException::IllegalDataValue => 0x03,
            ModbusException::ServerDeviceFailure => 0x04,
        }
    }

    /// The code carried on the wire: 0x01 to 0x04.
    pub fn code(&self) -> (c: u8)
        ensures
            c == self.spec_code(),
    {
        match self {
            ModbusException::IllegalFunction => 0x01,
            ModbusException::IllegalDataAddress => 0x02,
            ModbusException::IllegalDataValue => 0x03,
            ModbusException::ServerDeviceFailure => 0x04,
        }
    }
}

// ---------------------------------------------------------------------------
// The wire format, as mathematics.
// ---------------------------------------------------------------------------

/// A big-endian 16-bit field.
pub open spec fn be16(hi: u8, lo: u8) -> u16 {
    (hi as int * 256 + lo as int) as u16
}

/// The CRC as carried on the wire: low byte first.
pub open spec fn crc_bytes(crc: u16) -> Seq<u8> {
    seq![(crc % 256) as u8, (crc / 256) as u8]
}

/// A frame body followed by its CRC.
pub open spec fn with_crc(body: Seq<u8>) -> Seq<u8> {
    body + crc_bytes(spec_crc16(body))
}

/// The last two bytes of `frame` are the CRC of the bytes before them.
pub open spec fn crc_ok(frame: Seq<u8>) -> bool {
    &&& frame.len() >= 2
    &&& crc_bytes(spec_crc16(frame.subrange(0, frame.len() - 2))) == frame.subrange(
        frame.len() - 2,
        frame.len() as int,
    )
}

/// The first 16-bit field of a request: start address (or register address).
pub open spec fn field_start(frame: Seq<u8>) -> u16 {
    be16(frame[2], frame[3])
}

/// The second 16-bit field of a request: quantity (or value).
pub open spec fn field_count(frame: Seq<u8>) -> u16 {
    be16(frame[4], frame[5])
}

/// Exception reply: address, function code with bit 7 set, exception code, CRC.
pub open spec fn exception_frame(address: u8, fc: u8, exc: ModbusException) -> Seq<u8> {
    with_crc(seq![address, fc | 0x80u8, exc.spec_code()])
}

/// `n` registers from `start`, each as two bytes, high byte first.
pub open spec fn reg_bytes(holding: Seq<u16>, start: int, n: int) -> Seq<u8> {
    Seq::new(
        (2 * n) as nat,
        |k: int|
            if k % 2 == 0 {
                (holding[start + k / 2] / 256) as u8
            } else {
                (holding[start + k / 2] % 256) as u8
            },
    )
}

/// FC03 Read Holding Registers.
pub open spec fn fc03_reply(address: u8, holding: Seq<u16>, frame: Seq<u8>) -> Result<
    Seq<u8>,
    ModbusException,
> {
    let start = field_start(frame) as int;
    let count = field_count(frame) as int;
    if count == 0 || count > 125 {
        Err(ModbusException::IllegalDataValue)
    } else if start + count > holding.len() {
        Err(ModbusException::IllegalDataAddress)
    } else {
        Ok(with_crc(seq![address, 0x03u8, (2 * count) as u8] + reg_bytes(holding, start, count)))
    }
}

/// Coil number `idx` of a read of `count` coils from `start` is on.
pub open spec fn coil_on(coils: Seq<bool>, start: int, count: int, idx: int) -> bool {
    idx < count && coils[start + idx]
}

/// Byte `k` of a coil read, with its low `n` bits filled in: bit `b` is coil
/// `8 * k + b`, least significant bit first.
pub open spec fn coil_bits(coils: Seq<bool>, start: int, count: int, k: int, n: nat) -> u8
    decreases n,
{
    if n == 0 {
        0u8
    } else {
        let b = (n - 1) as nat;
        let prev = coil_bits(coils, start, count, k, b);
        if coil_on(coils, start, count, 8 * k + b) {
            prev | (1u8 << (b as u8))
        } else {
            prev
        }
    }
}

/// The data bytes of a read of `count` coils from `start`.
pub open spec fn coil_bytes(coils: Seq<bool>, start: int, count: int) -> Seq<u8> {
    Seq::new(((count + 7) / 8) as nat, |k: int| coil_bits(coils, start, count, k, 8))
}

/// FC01 Read Coils.
pub open spec fn fc01_reply(address: u8, coils: Seq<bool>, frame: Seq<u8>) -> Result<
    Seq<u8>,
    ModbusException,
> {
    let start = field_start(frame) as int;
    let count = field_count(frame) as int;
    if count == 0 || count > 2000 {
        Err(ModbusException::IllegalDataValue)
    } else if start + count > coils.len() {
        Err(ModbusException::IllegalDataAddress)
    } else {
        Ok(
            with_crc(
                seq![address, 0x01u8, ((count + 7) / 8) as u8] + coil_bytes(coils, start, count),
            ),
        )
    }
}

/// FC06 Write Single Register: the reply echoes the request.
pub open spec fn fc06_reply(holding: Seq<u16>, frame: Seq<u8>) -> Result<Seq<u8>, ModbusException> {
    if field_start(frame) < holding.len() {
        Ok(with_crc(frame.subrange(0, 6)))
    } else {
        Err(ModbusException::IllegalDataAddress)
    }
}

/// The registers after FC06.
pub open spec fn fc06_registers(holding: Seq<u16>, frame: Seq<u8>) -> Seq<u16> {
    if field_start(frame) < holding.len() {
        holding.update(field_start(frame) as int, field_count(frame))
    } else {
        holding
    }
}

/// The byte-count field of an FC16 request.
pub open spec fn fc16_byte_count(frame: Seq<u8>) -> u8 {
    frame[6]
}

/// FC16's quantity and byte count are acceptable.
pub open spec fn fc16_values_ok(frame: Seq<u8>) -> bool {
    let count = field_count(frame) as int;
    &&& 1 <= count <= 123
    &&& fc16_byte_count(frame) == 2 * count
}

/// The value FC16 carries for the `i`-th register it writes.
pub open spec fn fc16_value(frame: Seq<u8>, i: int) -> u16 {
    be16(frame[7 + 2 * i], frame[8 + 2 * i])
}

/// How many registers FC16 writes before it stops: all of them, or those up
/// to the end of the table.
pub open spec fn fc16_written(holding_len: int, frame: Seq<u8>) -> int {
    let start = field_start(frame) as int;
    let count = field_count(frame) as int;
    if start + count <= holding_len {
        count
    } else if start < holding_len {
        holding_len - start
    } else {
        0
    }
}

/// How many values FC16 reads from the frame: those it writes, and the one
/// whose write fails, if any.
pub open spec fn fc16_values_read(holding_len: int, frame: Seq<u8>) -> int {
    let count = field_count(frame) as int;
    if fc16_written(holding_len, frame) < count {
        fc16_written(holding_len, frame) + 1
    } else {
        count
    }
}

/// FC16 Write Multiple Registers.
pub open spec fn fc16_reply(holding: Seq<u16>, frame: Seq<u8>) -> Result<Seq<u8>, ModbusException> {
    if !fc16_values_ok(frame) {
        Err(ModbusException::IllegalDataValue)
    } else if field_start(frame) + field_count(frame) > holding.len() {
        Err(ModbusException::IllegalDataAddress)
    } else {
        Ok(with_crc(frame.subrange(0, 6)))
    }
}

/// The registers after FC16: registers are written in order until the end of
/// the table, so a request that runs past the end still writes its first part.
pub open spec fn fc16_registers(holding: Seq<u16>, frame: Seq<u8>) -> Seq<u16> {
    if !fc16_values_ok(frame) {
        holding
    } else {
        let start = field_start(frame) as int;
        let n = fc16_written(holding.len() as int, frame);
        Seq::new(
            holding.len(),
            |p: int|
                if start <= p < start + n {
                    fc16_value(frame, p - start)
                } else {
                    holding[p]
                },
        )
    }
}

/// FC16 reads only bytes that the frame holds: its byte-count field, and the
/// values it reads when the quantity and byte count are acceptable.
pub open spec fn fc16_in_bounds(holding_len: int, frame: Seq<u8>) -> bool {
    &&& frame.len() >= 7
    &&& fc16_values_ok(frame) ==> frame.len() >= 7 + 2 * fc16_values_read(holding_len, frame)
}

/// The frame is for this slave and intact.
pub open spec fn frame_accepted(address: u8, frame: Seq<u8>) -> bool {
    &&& frame.len() >= 6
    &&& frame[0] == address
    &&& crc_ok(frame)
}

/// The result of a request's function code.
pub open spec fn request_result(
    address: u8,
    holding: Seq<u16>,
    coils: Seq<bool>,
    frame: Seq<u8>,
) -> Result<Seq<u8>, ModbusException> {
    let fc = frame[1];
    if fc == 0x01 {
        fc01_reply(address, coils, frame)
    } else if fc == 0x03 {
        fc03_reply(address, holding, frame)
    } else if fc == 0x06 {
        fc06_reply(holding, frame)
    } else if fc == 0x10 {
        fc16_reply(holding, frame)
    } else {
        Err(ModbusException::IllegalFunction)
    }
}

/// The reply to a frame: none for a frame that is short, for another slave,
/// or damaged; otherwise the function's reply or an exception reply.
pub open spec fn reply_to(address: u8, holding: Seq<u16>, coils: Seq<bool>, frame: Seq<u8>) -> Option<
    Seq<u8>,
> {
    if !frame_accepted(address, frame) {
        None
    } else {
        match request_result(address, holding, coils, frame) {
            Ok(r) => Some(r),
            Err(e) => Some(exception_frame(address, frame[1], e)),
        }
    }
}

/// The holding registers after a frame is handled.
pub open spec fn registers_after(address: u8, holding: Seq<u16>, frame: Seq<u8>) -> Seq<u16> {
    if !frame_accepted(address, frame) {
        holding
    } else if frame[1] == 0x06 {
        fc06_registers(holding, frame)
    } else if frame[1] == 0x10 {
        fc16_registers(holding, frame)
    } else {
        holding
    }
}

/// Handling the frame reads only bytes that it holds (an FC16 request whose
/// data is shorter than its fields announce would read past its end).
pub open spec fn frame_in_bounds(address: u8, holding_len: int, frame: Seq<u8>) -> bool {
    frame_accepted(address, frame) && frame[1] == 0x10 ==> fc16_in_bounds(holding_len, frame)
}

/// The reply viewed as bytes.
pub open spec fn reply_bytes(r: Option<heapless::Vec<u8, 256>>) -> Option<Seq<u8>> {
    match r {
        Some(v) => Some(frame_bytes(v)),
        None => None,
    }
}

/// A function's result viewed as bytes.
pub open spec fn result_bytes(r: Result<heapless::Vec<u8, 256>, ModbusException>) -> Result<
    Seq<u8>,
    ModbusException,
> {
    match r {
        Ok(v) => Ok(frame_bytes(v)),
        Err(e) => Err(e),
    }
}

// ---------------------------------------------------------------------------
// Byte helpers.
// ---------------------------------------------------------------------------

fn be16_of(hi: u8, lo: u8) -> (v: u16)
    ensures
        v == be16(hi, lo),
{
    (hi as u16) * 256 + (lo as u16)
}

/// Appends the CRC of what `resp` holds, low byte first.
fn append_crc(table: &[u16; 256], resp: &mut heapless::Vec<u8, 256>)
    requires
        is_crc_table(table@),
        frame_bytes(*old(resp)).len() <= 254,
    ensures
        frame_bytes(*final(resp)) == with_crc(frame_bytes(*old(resp))),
{
    let crc = crc16_with_table(table, frame_as_slice(resp));
    let lo = (crc & 0xFF) as u8;
    let hi = (crc >> 8) as u8;
    assert(crc & 0xFFu16 == crc % 256 && crc >> 8u16 == crc / 256) by (bit_vector);
    let bytes = [lo, hi];
    let _ = frame_extend(resp, bytes.as_slice());
    assert(bytes@ == crc_bytes(crc));
}


/// A Modbus RTU slave: its address, its register table, and the frame being
/// received.
pub struct ModbusRtuSlave {
    pub address: u8,
    pub regs: RegisterMap,
    rx_buf: [u8; 256],
    rx_len: usize,
    last_rx_tick: u32,
    crc_table: [u16; 256],
}

impl ModbusRtuSlave {
    /// The receive buffer never holds more than its 256 bytes, and the CRC
    /// lookup table is the right one.
    pub closed spec fn wf(&self) -> bool {
        &&& self.rx_len <= 256
        &&& is_crc_table(self.crc_table@)
    }

    /// The bytes of the frame being received.
    pub closed spec fn pending(&self) -> Seq<u8> {
        self.rx_buf@.subrange(0, self.rx_len as int)
    }

    /// The slave's address.
    pub closed spec fn slave_address(&self) -> u8 {
        self.address
    }

    /// The holding registers.
    pub closed spec fn holding(&self) -> Seq<u16> {
        self.regs.holding_regs@
    }

    /// The coils.
    pub closed spec fn coils(&self) -> Seq<bool> {
        self.regs.coils@
    }

    /// The tick of the last byte received.
    pub closed spec fn last_tick(&self) -> u32 {
        self.last_rx_tick
    }

    /// Receiving a byte at `tick` ends the frame being received: some bytes
    /// are pending and the line has been silent for at least
    /// `INTER_FRAME_TICKS` ticks since the last one (counted modulo 2^32).
    pub open spec fn frame_ends_at(&self, tick: u32) -> bool {
        &&& self.pending().len() > 0
        &&& tick.wrapping_sub(self.last_tick()) >= 4
    }

    /// The receive buffer holds at most 256 bytes: a frame longer than that
    /// keeps its first 256 bytes.
    pub proof fn lemma_pending_bounded(&self)
        requires
            self.wf(),
        ensures
            self.pending().len() <= 256,
    {
    }

    /// The slave's address.
    pub fn address(&self) -> (a: u8)
        ensures
            a == self.slave_address(),
    {
        self.address
    }

    /// Reads a holding register; `None` when out of range.
    pub fn read_reg(&self, addr: u16) -> (r: Option<u16>)
        ensures
            r == read_at(self.holding(), addr),
    {
        self.regs.read_reg(addr)
    }

    /// Writes a holding register; `false` (and nothing written) when out of
    /// range. The frame being received is untouched.
    pub fn write_reg(&mut self, addr: u16, value: u16) -> (ok: bool)
        ensures
            ok == (addr < HOLDING_REG_COUNT),
            final(self).holding() == write_at(old(self).holding(), addr, value),
            final(self).coils() == old(self).coils(),
            final(self).wf() == old(self).wf(),
            final(self).slave_address() == old(self).slave_address(),
            final(self).pending() == old(self).pending(),
            final(self).last_tick() == old(self).last_tick(),
    {
        self.regs.write_reg(addr, value)
    }

    /// Reads a coil; `None` when out of range.
    pub fn read_coil(&self, addr: u16) -> (r: Option<bool>)
        ensures
            r == read_at(self.coils(), addr),
    {
        self.regs.read_coil(addr)
    }

    /// Writes a coil; `false` (and nothing written) when out of range. The
    /// frame being received is untouched.
    pub fn write_coil(&mut self, addr: u16, value: bool) -> (ok: bool)
        ensures
            ok == (addr < COIL_COUNT),
            final(self).coils() == write_at(old(self).coils(), addr, value),
            final(self).holding() == old(self).holding(),
            final(self).wf() == old(self).wf(),
            final(self).slave_address() == old(self).slave_address(),
            final(self).pending() == old(self).pending(),
            final(self).last_tick() == old(self).last_tick(),
    {
        self.regs.write_coil(addr, value)
    }

    /// Drops the frame being received, for instance one that
    /// `can_process_byte` refuses; the next byte starts a new frame.
    pub fn discard_frame(&mut self)
        requires
            old(self).wf(),
        ensures
            final(self).wf(),
            final(self).pending() == Seq::<u8>::empty(),
            final(self).holding() == old(self).holding(),
            final(self).coils() == old(self).coils(),
            final(self).slave_address() == old(self).slave_address(),
            final(self).last_tick() == old(self).last_tick(),
    {
        self.rx_len = 0;
        assert(self.pending() =~= Seq::<u8>::empty());
    }

    /// A slave at `address` with cleared registers and nothing received.
    pub fn new(address: u8) -> (s: Self)
        ensures
            s.wf(),
            s.slave_address() == address,
            s.holding() == Seq::new(64, |i: int| 0u16),
            s.coils() == Seq::new(16, |i: int| false),
            s.pending() == Seq::<u8>::empty(),
            s.pending().len() <= 256,
            s.last_tick() == 0,
    {
        let s = ModbusRtuSlave {
            address,
            regs: RegisterMap::new(),
            rx_buf: [0u8; 256],
            rx_len: 0,
            last_rx_tick: 0,
            crc_table: generate_table(),
        };
        assert(s.pending() =~= Seq::<u8>::empty());
        s
    }

    fn build_exception(&self, fc: u8, exc: ModbusException) -> (resp: heapless::Vec<u8, 256>)
        requires
            is_crc_table(self.crc_table@),
        ensures
            frame_bytes(resp) == exception_frame(self.address, fc, exc),
    {
        let mut resp = frame_new();
        let _ = frame_push(&mut resp, self.address);
        let _ = frame_push(&mut resp, fc | 0x80);  // bit 7 marks the error
        let _ = frame_push(&mut resp, exc.code());
        append_crc(&self.crc_table, &mut resp);
        assert(seq![self.address].push(fc | 0x80u8).push(exc.spec_code()) =~= seq![
            self.address,
            fc | 0x80u8,
            exc.spec_code(),
        ]);
        resp
    }

    fn fc03_read_holding_regs(&self, frame: &[u8]) -> (r: Result<heapless::Vec<u8, 256>, ModbusException>)
        requires
            is_crc_table(self.crc_table@),
            frame@.len() >= 6,
        ensures
            result_bytes(r) == fc03_reply(self.address, self.regs.holding_regs@, frame@),
    {
        let start = be16_of(frame[2], frame[3]);
        let count = be16_of(frame[4], frame[5]);

        if count == 0 || count > 125 {
            return Err(ModbusException::IllegalDataValue);
        }

        let mut resp = frame_new();
        let _ = frame_push(&mut resp, self.address);
        let _ = frame_push(&mut resp, 0x03);
        let _ = frame_push(&mut resp, (count * 2) as u8);
        let ghost head = seq![self.address, 0x03u8, (2 * count) as u8];
        assert(frame_bytes(resp) =~= head + reg_bytes(self.regs.holding_regs@, start as int, 0));

        let mut i: u16 = 0;
        while i < count
            invariant
                1 <= count <= 125,
                i <= count,
                start == field_start(frame@),
                count == field_count(frame@),
                i == 0 || start + i <= 64,
                head == seq![self.address, 0x03u8, (2 * count) as u8],
                self.regs.holding_regs@.len() == 64,
                frame_bytes(resp) == head + reg_bytes(self.regs.holding_regs@, start as int, i as int),
            decreases count - i,
        {
            let val = self.regs.read_reg(start + i).ok_or(ModbusException::IllegalDataAddress)?;
            let _ = frame_push(&mut resp, (val >> 8) as u8);
            let _ = frame_push(&mut resp, val as u8);
            proof {
                assert((val >> 8u16) as u8 == val / 256 && val as u8 == val % 256) by (bit_vector);
                let k = 2 * i as int;
                assert(k / 2 == i && (k + 1) / 2 == i && k % 2 == 0 && (k + 1) % 2 == 1);
                assert(frame_bytes(resp) =~= head + reg_bytes(
                    self.regs.holding_regs@,
                    start as int,
                    i + 1,
                ));
            }
            i += 1;
        }

        append_crc(&self.crc_table, &mut resp);
        Ok(resp)
    }

    fn fc06_write_single_reg(&mut self, frame: &[u8]) -> (r: Result<heapless::Vec<u8, 256>, ModbusException>)
        requires
            is_crc_table(old(self).crc_table@),
            frame@.len() >= 6,
        ensures
            result_bytes(r) == fc06_reply(old(self).regs.holding_regs@, frame@),
            final(self).regs.holding_regs@ == fc06_registers(old(self).regs.holding_regs@, frame@),
            final(self).regs.coils@ == old(self).regs.coils@,
            final(self).address == old(self).address,
            final(self).rx_buf == old(self).rx_buf,
            final(self).rx_len == old(self).rx_len,
            final(self).last_rx_tick == old(self).last_rx_tick,
            final(self).crc_table == old(self).crc_table,
    {
        let addr = be16_of(frame[2], frame[3]);
        let value = be16_of(frame[4], frame[5]);

        if !self.regs.write_reg(addr, value) {
            return Err(ModbusException::IllegalDataAddress);
        }

        // The reply to FC06 echoes the request.
        let mut resp = frame_new();
        let _ = frame_extend(&mut resp, &frame[0..6]);
        append_crc(&self.crc_table, &mut resp);
        Ok(resp)
    }

    fn fc16_write_multiple_regs(&mut self, frame: &[u8]) -> (r: Result<heapless::Vec<u8, 256>, ModbusException>)
        requires
            is_crc_table(old(self).crc_table@),
            frame@.len() >= 6,
            fc16_in_bounds(64, frame@),
        ensures
            result_bytes(r) == fc16_reply(old(self).regs.holding_regs@, frame@),
            final(self).regs.holding_regs@ == fc16_registers(old(self).regs.holding_regs@, frame@),
            final(self).regs.coils@ == old(self).regs.coils@,
            final(self).address == old(self).address,
            final(self).rx_buf == old(self).rx_buf,
            final(self).rx_len == old(self).rx_len,
            final(self).last_rx_tick == old(self).last_rx_tick,
            final(self).crc_table == old(self).crc_table,
    {
        let start = be16_of(frame[2], frame[3]);
        let count = be16_of(frame[4], frame[5]);
        let byte_count = frame[6] as usize;

        if count == 0 || count > 123 || byte_count != count as usize * 2 {
            proof {
                assert(fc16_registers(old(self).regs.holding_regs@, frame@) =~= old(self).regs.holding_regs@);
            }
            return Err(ModbusException::IllegalDataValue);
        }

        let ghost h0 = old(self).regs.holding_regs@;
        let mut i: u16 = 0;
        while i < count
            invariant
                1 <= count <= 123,
                i <= count,
                start == field_start(frame@),
                count == field_count(frame@),
                fc16_values_ok(frame@),
                fc16_in_bounds(64, frame@),
                i == 0 || start + i <= 64,
                h0 == old(self).regs.holding_regs@,
                self.regs.holding_regs@ == Seq::new(
                    64,
                    |p: int| if start <= p < start + i { fc16_value(frame@, p - start) } else { h0[p] },
                ),
                self.regs.coils@ == old(self).regs.coils@,
                self.address == old(self).address,
                self.rx_buf == old(self).rx_buf,
                self.rx_len == old(self).rx_len,
                self.last_rx_tick == old(self).last_rx_tick,
                self.crc_table == old(self).crc_table,
            decreases count - i,
        {
            let offset = 7 + i as usize * 2;
            proof {
                assert(i < fc16_values_read(64, frame@));
            }
            let value = be16_of(frame[offset], frame[offset + 1]);
            if !self.regs.write_reg(start + i, value) {
                proof {
                    assert(fc16_written(64, frame@) == i);
                    assert(self.regs.holding_regs@ =~= fc16_registers(h0, frame@));
                }
                return Err(ModbusException::IllegalDataAddress);
            }
            i += 1;
            proof {
                assert(self.regs.holding_regs@ =~= Seq::new(
                    64,
                    |p: int| if start <= p < start + i { fc16_value(frame@, p - start) } else { h0[p] },
                ));
            }
        }
        proof {
            assert(fc16_written(64, frame@) == count);
            assert(self.regs.holding_regs@ =~= fc16_registers(h0, frame@));
        }

        // Reply: address, function code, start and quantity, CRC.
        let mut resp = frame_new();
        let _ = frame_extend(&mut resp, &frame[0..6]);
        append_crc(&self.crc_table, &mut resp);
        Ok(resp)
    }

    fn fc01_read_coils(&self, frame: &[u8]) -> (r: Result<heapless::Vec<u8, 256>, ModbusException>)
        requires
            is_crc_table(self.crc_table@),
            frame@.len() >= 6,
        ensures
            result_bytes(r) == fc01_reply(self.address, self.regs.coils@, frame@),
    {
        let start = be16_of(frame[2], frame[3]);
        let count = be16_of(frame[4], frame[5]);

        if count == 0 || count > 2000 {
            return Err(ModbusException::IllegalDataValue);
        }

        let byte_count = (count as usize + 7) / 8;  // rounded up
        assert(8 * byte_count >= count && 8 * byte_count < count + 8) by (nonlinear_arith)
            requires
                byte_count == (count + 7) / 8,
        ;

        let mut resp = frame_new();
        let _ = frame_push(&mut resp, self.address);
        let _ = frame_push(&mut resp, 0x01);
        let _ = frame_push(&mut resp, byte_count as u8);
        let ghost coils = self.regs.coils@;
        let ghost head = seq![self.address, 0x01u8, byte_count as u8];
        assert(frame_bytes(resp) =~= head + Seq::new(
            0,
            |k: int| coil_bits(coils, start as int, count as int, k, 8),
        ));

        let mut byte_idx: usize = 0;
        while byte_idx < byte_count
            invariant
                1 <= count <= 2000,
                byte_count == (count + 7) / 8,
                8 * byte_count >= count,
                byte_idx <= byte_count,
                start == field_start(frame@),
                count == field_count(frame@),
                coils == self.regs.coils@,
                coils.len() == 16,
                head == seq![self.address, 0x01u8, byte_count as u8],
                8 * byte_idx >= count || 8 * byte_idx == 0 || start + 8 * byte_idx <= 16,
                8 * byte_idx >= count ==> start + count <= 16,
                frame_bytes(resp) == head + Seq::new(
                    byte_idx as nat,
                    |k: int| coil_bits(coils, start as int, count as int, k, 8),
                ),
            decreases byte_count - byte_idx,
        {
            let mut byte_val: u8 = 0;
            let mut bit_idx: usize = 0;
            while bit_idx < 8
                invariant
                    1 <= count <= 2000,
                    byte_idx < byte_count,
                    byte_count == (count + 7) / 8,
                    8 * byte_count >= count,
                    bit_idx <= 8,
                    start == field_start(frame@),
                    count == field_count(frame@),
                    coils == self.regs.coils@,
                    coils.len() == 16,
                    byte_val == coil_bits(coils, start as int, count as int, byte_idx as int, bit_idx as nat),
                    8 * byte_idx + bit_idx >= count || 8 * byte_idx + bit_idx == 0 || start + 8
                        * byte_idx + bit_idx <= 16,
                    8 * byte_idx + bit_idx >= count ==> start + count <= 16,
                decreases 8 - bit_idx,
            {
                let coil_idx = byte_idx * 8 + bit_idx;
                if coil_idx < count as usize {
                    let val = self.regs.read_coil(start + coil_idx as u16).ok_or(
                        ModbusException::IllegalDataAddress,
                    )?;
                    if val {
                        byte_val |= 1u8 << (bit_idx as u8);  // least significant bit first
                    }
                }
                bit_idx += 1;
            }
            let _ = frame_push(&mut resp, byte_val);
            byte_idx += 1;
            proof {
                assert(frame_bytes(resp) =~= head + Seq::new(
                    byte_idx as nat,
                    |k: int| coil_bits(coils, start as int, count as int, k, 8),
                ));
            }
        }

        append_crc(&self.crc_table, &mut resp);
        Ok(resp)
    }

    fn dispatch(&mut self, frame: &[u8]) -> (r: Option<heapless::Vec<u8, 256>>)
        requires
            is_crc_table(old(self).crc_table@),
            frame_in_bounds(old(self).address, 64, frame@),
        ensures
            reply_bytes(r) == reply_to(
                old(self).address,
                old(self).regs.holding_regs@,
                old(self).regs.coils@,
                frame@,
            ),
            final(self).regs.holding_regs@ == registers_after(
                old(self).address,
                old(self).regs.holding_regs@,
                frame@,
            ),
            final(self).regs.coils@ == old(self).regs.coils@,
            final(self).address == old(self).address,
            final(self).rx_buf == old(self).rx_buf,
            final(self).rx_len == old(self).rx_len,
            final(self).last_rx_tick == old(self).last_rx_tick,
            final(self).crc_table == old(self).crc_table,
    {
        // Shortest frame: address, function code, two data bytes, CRC.
        if frame.len() < 6 {
            return None;
        }
        if frame[0] != self.address {
            return None;
        }
        let data = &frame[0..frame.len() - 2];
        let crc_received = (frame[frame.len() - 2] as u16) + (frame[frame.len() - 1] as u16) * 256;
        let crc = crc16_with_table(&self.crc_table, data);
        proof {
            let n = frame@.len() as int;
            assert(frame@.subrange(n - 2, n) =~= seq![frame@[n - 2], frame@[n - 1]]);
        }
        if crc != crc_received {
            return None;  // damaged frame: stay silent
        }

        let fc = frame[1];
        let result = match fc {
            0x01 => self.fc01_read_coils(frame),
            0x03 => self.fc03_read_holding_regs(frame),
            0x06 => self.fc06_write_single_reg(frame),
            0x10 => self.fc16_write_multiple_regs(frame),
            _ => Err(ModbusException::IllegalFunction),
        };

        match result {
            Ok(response) => Some(response),
            Err(exc) => Some(self.build_exception(fc, exc)),
        }
    }

    /// Called for each byte received on the UART at `tick`. When the silence
    /// before this byte ends a frame, the frame is handled and its reply (if
    /// any) returned; the byte then starts the next frame. Otherwise the byte
    /// is appended to the frame (dropped once 256 bytes are held) and `None`
    /// is returned.
    pub fn process_byte(&mut self, byte: u8, tick: u32) -> (r: Option<heapless::Vec<u8, 256>>)
        requires
            old(self).wf(),
            old(self).frame_ends_at(tick) ==> frame_in_bounds(
                old(self).slave_address(),
                old(self).holding().len() as int,
                old(self).pending(),
            ),
        ensures
            final(self).wf(),
            final(self).pending().len() <= 256,
            // A frame ends when bytes are pending and at least four ticks
            // have passed since the last byte, the tick counter wrapping.
            old(self).frame_ends_at(tick) <==> (old(self).pending().len() > 0 && (if tick
                >= old(self).last_tick() {
                tick - old(self).last_tick()
            } else {
                tick + 0x1_0000_0000 - old(self).last_tick()
            }) >= 4),
            final(self).slave_address() == old(self).slave_address(),
            final(self).coils() == old(self).coils(),
            final(self).last_tick() == tick,
            old(self).frame_ends_at(tick) ==> {
                &&& reply_bytes(r) == reply_to(
                    old(self).slave_address(),
                    old(self).holding(),
                    old(self).coils(),
                    old(self).pending(),
                )
                &&& final(self).holding() == registers_after(
                    old(self).slave_address(),
                    old(self).holding(),
                    old(self).pending(),
                )
                &&& final(self).pending() == seq![byte]
            },
            !old(self).frame_ends_at(tick) ==> {
                &&& r is None
                &&& final(self).holding() == old(self).holding()
                &&& final(self).pending() == if old(self).pending().len() < 256 {
                    old(self).pending().push(byte)
                } else {
                    old(self).pending()
                }
            },
    {
        // Inter-frame silence (3.5 characters) ends the frame.
        if self.rx_len > 0 && tick.wrapping_sub(self.last_rx_tick) >= INTER_FRAME_TICKS {
            let len = self.rx_len;
            self.rx_len = 0;
            // A copy of the buffer, so that `dispatch` can borrow `self`.
            let frame_copy = self.rx_buf;
            let response = self.dispatch(&frame_copy[0..len]);
            // The new byte is kept after the frame has been handled.
            self.rx_buf[0] = byte;
            self.rx_len = 1;
            self.last_rx_tick = tick;
            proof {
                assert(self.pending() =~= seq![byte]);
            }
            return response;
        }

        if self.rx_len < 256 {
            self.rx_buf[self.rx_len] = byte;
            self.rx_len += 1;
            proof {
                assert(self.pending() =~= old(self).pending().push(byte));
            }
        }
        self.last_rx_tick = tick;
        None
    }

    /// Whether `process_byte` may be given a byte at `tick`: a frame that this
    /// byte would end must not announce more FC16 data than it holds.
    pub fn can_process_byte(&self, tick: u32) -> (ok: bool)
        requires
            self.wf(),
        ensures
            ok == (self.frame_ends_at(tick) ==> frame_in_bounds(
                self.slave_address(),
                self.holding().len() as int,
                self.pending(),
            )),
    {
        if !(self.rx_len > 0 && tick.wrapping_sub(self.last_rx_tick) >= INTER_FRAME_TICKS) {
            return true;
        }
        let frame = &self.rx_buf[0..self.rx_len];
        if frame.len() < 6 || frame[0] != self.address || frame[1] != 0x10 {
            return true;
        }
        let n = frame.len();
        let crc_received = (frame[n - 2] as u16) + (frame[n - 1] as u16) * 256;
        proof {
            assert(frame@.subrange(n - 2, n as int) =~= seq![frame@[n - 2], frame@[n - 1]]);
        }
        if crc16_with_table(&self.crc_table, &frame[0..n - 2]) != crc_received {
            return true;
        }
        if n < 7 {
            return false;
        }
        let start = be16_of(frame[2], frame[3]) as usize;
        let count = be16_of(frame[4], frame[5]) as usize;
        if count == 0 || count > 123 || frame[6] as usize != count * 2 {
            return true;
        }
        let written = if start + count <= HOLDING_REG_COUNT {
            count
        } else if start < HOLDING_REG_COUNT {
            HOLDING_REG_COUNT - start
        } else {
            0
        };
        let read = if written < count {
            written + 1
        } else {
            count
        };
        n >= 7 + 2 * read
    }
}

} // verus!
