//! What each function code does, stated over the bytes of the request and of
//! the reply.
use vstd::prelude::*;

use crate::crc16::spec_crc16;
use crate::modbus_rtu::{
    exception_frame, ModbusException, coil_bytes, crc_bytes, frame_accepted, reg_bytes, registers_after, reply_to, with_crc,
};
use crate::protocol_laws::lemma_replies_are_frames;
use crate::protocol_laws::lemma_coil_byte_bits;

verus! {

/// A frame of at least six bytes, starting with `address`, whose last two
/// bytes are the CRC of the rest (low byte first), is accepted.
proof fn lemma_intact_frame_accepted(address: u8, frame: Seq<u8>)
    requires
        frame.len() >= 6,
        frame[0] == address,
        spec_crc16(frame.subrange(0, frame.len() - 2)) as int == frame[frame.len() - 2] as int + 256
            * frame[frame.len() - 1] as int,
    ensures
        frame_accepted(address, frame),
{
    let n = frame.len() as int;
    let c = spec_crc16(frame.subrange(0, n - 2));
    assert(crc_bytes(c) =~= frame.subrange(n - 2, n));
}

/// A body followed by its CRC: the body's bytes, then the CRC, low byte first.
proof fn lemma_with_crc_bytes(body: Seq<u8>)
    ensures
        with_crc(body).len() == body.len() + 2,
        forall|k: int| 0 <= k < body.len() ==> #[trigger] with_crc(body)[k] == body[k],
        ({
            let r = with_crc(body);
            spec_crc16(r.subrange(0, r.len() - 2)) as int == r[r.len() - 2] as int + 256 * r[r.len()
                - 1] as int
        }),
{
    let r = with_crc(body);
    assert(r.subrange(0, r.len() - 2) =~= body);
}

/// Every frame addressed to this slave whose CRC is intact gets a reply, sent
/// from this slave's address, whatever its length and function code.
pub proof fn lemma_intact_frames_are_answered(
    address: u8,
    holding: Seq<u16>,
    coils: Seq<bool>,
    frame: Seq<u8>,
)
    requires
        holding.len() == 64,
        coils.len() == 16,
        frame.len() >= 6,
        frame[0] == address,
        spec_crc16(frame.subrange(0, frame.len() - 2)) as int == frame[frame.len() - 2] as int + 256
            * frame[frame.len() - 1] as int,
    ensures
        reply_to(address, holding, coils, frame) matches Some(r) && r[0] == address,
{
    lemma_intact_frame_accepted(address, frame);
    lemma_replies_are_frames(address, holding, coils, frame);
}

/// FC03 Read Holding Registers, on a request whose quantity is 1 to 125 and
/// whose range lies in the table: the reply is address, 0x03, the byte count
/// 2 × quantity, then each register from the start address on, high byte
/// first, then the CRC; no register changes.
pub proof fn lemma_fc03_reads_registers(
    address: u8,
    holding: Seq<u16>,
    coils: Seq<bool>,
    frame: Seq<u8>,
)
    requires
        holding.len() == 64,
        frame.len() >= 6,
        frame[0] == address,
        spec_crc16(frame.subrange(0, frame.len() - 2)) as int == frame[frame.len() - 2] as int + 256
            * frame[frame.len() - 1] as int,
        frame[1] == 0x03,
        1 <= frame[4] as int * 256 + frame[5] as int <= 125,
        frame[2] as int * 256 + frame[3] as int + frame[4] as int * 256 + frame[5] as int <= 64,
    ensures
        ({
            let start = frame[2] as int * 256 + frame[3] as int;
            let count = frame[4] as int * 256 + frame[5] as int;
            &&& reply_to(address, holding, coils, frame) matches Some(r) && {
                &&& r.len() == 3 + 2 * count + 2
                &&& r[0] == address
                &&& r[1] == 0x03
                &&& r[2] == 2 * count
                &&& forall|j: int|
                    3 <= j < 3 + 2 * count ==> #[trigger] r[j] == if (j - 3) % 2 == 0 {
                        holding[start + (j - 3) / 2] / 256
                    } else {
                        holding[start + (j - 3) / 2] % 256
                    }
                &&& spec_crc16(r.subrange(0, r.len() - 2)) as int == r[r.len() - 2] as int + 256
                    * r[r.len() - 1] as int
            }
            &&& registers_after(address, holding, frame) == holding
        }),
{
    lemma_intact_frame_accepted(address, frame);
    let start = frame[2] as int * 256 + frame[3] as int;
    let count = frame[4] as int * 256 + frame[5] as int;
    let body = seq![address, 0x03u8, (2 * count) as u8] + reg_bytes(holding, start, count);
    lemma_with_crc_bytes(body);
    let r = with_crc(body);
    assert forall|j: int| 3 <= j < 3 + 2 * count implies #[trigger] r[j] == if (j - 3) % 2 == 0 {
        holding[start + (j - 3) / 2] / 256
    } else {
        holding[start + (j - 3) / 2] % 256
    } by {
        assert(r[j] == body[j]);
    }
}

/// FC01 Read Coils, on a request whose quantity is 1 to 2000 and whose range
/// lies in the table: the reply is address, 0x01, the byte count
/// ⌈quantity / 8⌉, then that many data bytes in which bit `b` of data byte
/// `k` is coil `start + 8k + b` (0 past the quantity), then the CRC.
pub proof fn lemma_fc01_reads_coils(
    address: u8,
    holding: Seq<u16>,
    coils: Seq<bool>,
    frame: Seq<u8>,
)
    requires
        coils.len() == 16,
        frame.len() >= 6,
        frame[0] == address,
        spec_crc16(frame.subrange(0, frame.len() - 2)) as int == frame[frame.len() - 2] as int + 256
            * frame[frame.len() - 1] as int,
        frame[1] == 0x01,
        1 <= frame[4] as int * 256 + frame[5] as int <= 2000,
        frame[2] as int * 256 + frame[3] as int + frame[4] as int * 256 + frame[5] as int <= 16,
    ensures
        ({
            let start = frame[2] as int * 256 + frame[3] as int;
            let count = frame[4] as int * 256 + frame[5] as int;
            let nbytes = (count + 7) / 8;
            &&& reply_to(address, holding, coils, frame) matches Some(r) && {
                &&& r.len() == 3 + nbytes + 2
                &&& r[0] == address
                &&& r[1] == 0x01
                &&& r[2] == nbytes
                &&& forall|j: int, b: u8|
                    3 <= j < 3 + nbytes && b < 8 ==> ((#[trigger] (r[j] >> b) & 1u8 == 1u8) <==> (8
                        * (j - 3) + b < count && coils[start + 8 * (j - 3) + b]))
                &&& spec_crc16(r.subrange(0, r.len() - 2)) as int == r[r.len() - 2] as int + 256
                    * r[r.len() - 1] as int
            }
            &&& registers_after(address, holding, frame) == holding
        }),
{
    lemma_intact_frame_accepted(address, frame);
    let start = frame[2] as int * 256 + frame[3] as int;
    let count = frame[4] as int * 256 + frame[5] as int;
    let nbytes = (count + 7) / 8;
    let body = seq![address, 0x01u8, nbytes as u8] + coil_bytes(coils, start, count);
    lemma_with_crc_bytes(body);
    let r = with_crc(body);
    assert forall|j: int, b: u8| 3 <= j < 3 + nbytes && b < 8 implies ((#[trigger] (r[j] >> b)
        & 1u8 == 1u8) <==> (8 * (j - 3) + b < count && coils[start + 8 * (j - 3) + b])) by {
        assert(r[j] == body[j]);
        lemma_coil_byte_bits(coils, start, count, j - 3, b);
    }
}

/// FC06 Write Single Register, on a request for a register in the table: that
/// register takes the request's value, every other register keeps its value,
/// and the reply repeats the request's first six bytes followed by their CRC.
pub proof fn lemma_fc06_writes_one_register(
    address: u8,
    holding: Seq<u16>,
    coils: Seq<bool>,
    frame: Seq<u8>,
)
    requires
        holding.len() == 64,
        frame.len() >= 6,
        frame[0] == address,
        spec_crc16(frame.subrange(0, frame.len() - 2)) as int == frame[frame.len() - 2] as int + 256
            * frame[frame.len() - 1] as int,
        frame[1] == 0x06,
        frame[2] as int * 256 + (frame[3] as int) < 64,
    ensures
        ({
            let reg = frame[2] as int * 256 + frame[3] as int;
            let after = registers_after(address, holding, frame);
            &&& reply_to(address, holding, coils, frame) matches Some(r) && {
                &&& r.len() == 8
                &&& (forall|k: int| 0 <= k < 6 ==> #[trigger] r[k] == frame[k])
                &&& spec_crc16(r.subrange(0, 6)) as int == r[6] as int + 256 * r[7] as int
            }
            &&& after.len() == 64
            &&& after[reg] == frame[4] as int * 256 + (frame[5] as int)
            &&& (forall|p: int| 0 <= p < 64 && p != reg ==> #[trigger] after[p] == holding[p])
        }),
{
    lemma_intact_frame_accepted(address, frame);
    lemma_with_crc_bytes(frame.subrange(0, 6));
}

/// FC16 Write Multiple Registers, on a request whose quantity is 1 to 123,
/// whose byte count is twice the quantity, whose range lies in the table and
/// whose data is all in the frame: register `start + i` takes the `i`-th
/// value (bytes `7 + 2i` and `8 + 2i`, high byte first), every other register
/// keeps its value, and the reply is the request's first six bytes followed by
/// their CRC.
pub proof fn lemma_fc16_writes_registers(
    address: u8,
    holding: Seq<u16>,
    coils: Seq<bool>,
    frame: Seq<u8>,
)
    requires
        holding.len() == 64,
        frame.len() >= 6,
        frame[0] == address,
        spec_crc16(frame.subrange(0, frame.len() - 2)) as int == frame[frame.len() - 2] as int + 256
            * frame[frame.len() - 1] as int,
        frame[1] == 0x10,
        1 <= frame[4] as int * 256 + frame[5] as int <= 123,
        frame.len() >= 7 + 2 * (frame[4] as int * 256 + frame[5] as int),
        frame[6] == 2 * (frame[4] as int * 256 + frame[5] as int),
        frame[2] as int * 256 + frame[3] as int + frame[4] as int * 256 + frame[5] as int <= 64,
    ensures
        ({
            let start = frame[2] as int * 256 + frame[3] as int;
            let count = frame[4] as int * 256 + frame[5] as int;
            let after = registers_after(address, holding, frame);
            &&& reply_to(address, holding, coils, frame) matches Some(r) && {
                &&& r.len() == 8
                &&& (forall|k: int| 0 <= k < 6 ==> #[trigger] r[k] == frame[k])
                &&& spec_crc16(r.subrange(0, 6)) as int == r[6] as int + 256 * r[7] as int
            }
            &&& after.len() == 64
            &&& (forall|p: int|
                0 <= p < 64 ==> #[trigger] after[p] == if start <= p < start + count {
                    frame[7 + 2 * (p - start)] as int * 256 + frame[8 + 2 * (p - start)] as int
                } else {
                    holding[p] as int
                })
        }),
{
    lemma_intact_frame_accepted(address, frame);
    lemma_with_crc_bytes(frame.subrange(0, 6));
}

/// FC16 on a request that runs past the end of the table: the registers from
/// the start address to the end of the table are written, in order, before
/// the Illegal Data Address exception (code 2) is returned. (Here the data is
/// taken to be all in the frame.)
pub proof fn lemma_fc16_past_end_writes_prefix(
    address: u8,
    holding: Seq<u16>,
    coils: Seq<bool>,
    frame: Seq<u8>,
)
    requires
        holding.len() == 64,
        frame.len() >= 7 + 2 * (frame[4] as int * 256 + frame[5] as int),
        frame[0] == address,
        spec_crc16(frame.subrange(0, frame.len() - 2)) as int == frame[frame.len() - 2] as int + 256
            * frame[frame.len() - 1] as int,
        frame[1] == 0x10,
        1 <= frame[4] as int * 256 + frame[5] as int <= 123,
        frame[6] == 2 * (frame[4] as int * 256 + frame[5] as int),
        frame[2] as int * 256 + frame[3] as int + frame[4] as int * 256 + frame[5] as int > 64,
    ensures
        ({
            let start = frame[2] as int * 256 + frame[3] as int;
            let after = registers_after(address, holding, frame);
            &&& reply_to(address, holding, coils, frame) matches Some(r) && {
                &&& r.len() == 5
                &&& r[0] == address
                &&& r[1] == 0x90
                &&& r[2] == 0x02
                &&& spec_crc16(r.subrange(0, 3)) as int == r[3] as int + 256 * r[4] as int
            }
            &&& after.len() == 64
            &&& (forall|p: int|
                0 <= p < 64 ==> #[trigger] after[p] == if start <= p {
                    frame[7 + 2 * (p - start)] as int * 256 + frame[8 + 2 * (p - start)] as int
                } else {
                    holding[p] as int
                })
        }),
{
    lemma_intact_frame_accepted(address, frame);
    assert(0x10u8 | 0x80u8 == 0x90u8) by (bit_vector);
    lemma_with_crc_bytes(seq![address, 0x90u8, 0x02u8]);
}

/// A frame that is shorter than six bytes, addressed to another slave, or
/// whose last two bytes are not the CRC of the rest (low byte first) gets no
/// reply and changes no register.
pub proof fn lemma_damaged_or_foreign_frames_are_ignored(
    address: u8,
    holding: Seq<u16>,
    coils: Seq<bool>,
    frame: Seq<u8>,
)
    requires
        frame.len() < 6 || frame[0] != address || spec_crc16(frame.subrange(0, frame.len() - 2))
            as int != frame[frame.len() - 2] as int + 256 * frame[frame.len() - 1] as int,
    ensures
        reply_to(address, holding, coils, frame) is None,
        registers_after(address, holding, frame) == holding,
{
    if frame.len() >= 6 && frame[0] == address {
        let n = frame.len() as int;
        let c = spec_crc16(frame.subrange(0, n - 2));
        if crc_bytes(c) == frame.subrange(n - 2, n) {
            assert(crc_bytes(c)[0] == frame[n - 2] && crc_bytes(c)[1] == frame[n - 1]);
        }
    }
}

/// The exception replies. On an intact frame for this slave, the reply is
/// five bytes: address, function code with bit 7 set, exception code, CRC;
/// the code is 1 for a function code other than 0x01, 0x03, 0x06 and 0x10,
/// 3 for a quantity out of range (FC01: 1 to 2000, FC03: 1 to 125, FC16: 1 to
/// 123 with a byte count of twice the quantity), and 2 for a range past the
/// end of the table (64 registers, 16 coils). Apart from FC16's partial write,
/// no register changes.
pub proof fn lemma_exception_replies(
    address: u8,
    holding: Seq<u16>,
    coils: Seq<bool>,
    frame: Seq<u8>,
)
    requires
        holding.len() == 64,
        coils.len() == 16,
        frame.len() >= 6,
        frame[0] == address,
        spec_crc16(frame.subrange(0, frame.len() - 2)) as int == frame[frame.len() - 2] as int + 256
            * frame[frame.len() - 1] as int,
        frame[1] == 0x10 ==> frame.len() >= 7,
    ensures
        ({
            let fc = frame[1];
            let start = frame[2] as int * 256 + frame[3] as int;
            let count = frame[4] as int * 256 + frame[5] as int;
            let code: int = if fc != 0x01 && fc != 0x03 && fc != 0x06 && fc != 0x10 {
                1
            } else if fc == 0x01 {
                if count == 0 || count > 2000 {
                    3
                } else if start + count > 16 {
                    2
                } else {
                    0
                }
            } else if fc == 0x03 {
                if count == 0 || count > 125 {
                    3
                } else if start + count > 64 {
                    2
                } else {
                    0
                }
            } else if fc == 0x06 {
                if start >= 64 {
                    2
                } else {
                    0
                }
            } else {
                if count == 0 || count > 123 || frame[6] != 2 * count {
                    3
                } else if start + count > 64 {
                    2
                } else {
                    0
                }
            };
            &&& code != 0 ==> (reply_to(address, holding, coils, frame) matches Some(r) && {
                &&& r.len() == 5
                &&& r[0] == address
                &&& r[1] == fc | 0x80u8
                &&& r[2] == code
                &&& spec_crc16(r.subrange(0, 3)) as int == r[3] as int + 256 * r[4] as int
            })
            &&& code != 0 && !(fc == 0x10 && code == 2) ==> registers_after(address, holding, frame)
                == holding
        }),
{
    lemma_intact_frame_accepted(address, frame);
    let fc = frame[1];
    match reply_to(address, holding, coils, frame) {
        Some(r) => {
            match crate::modbus_rtu::request_result(address, holding, coils, frame) {
                Ok(_) => {},
                Err(e) => {
                    lemma_with_crc_bytes(seq![address, fc | 0x80u8, e.spec_code()]);
                },
            }
        },
        None => {},
    }
}

} // verus!
