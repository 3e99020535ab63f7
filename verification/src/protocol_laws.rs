//! Properties of the protocol that span requests and replies.
use vstd::prelude::*;

use crate::crc16::{crc_byte, crc_shift_n, crc_shift8, spec_crc16};
use crate::modbus_rtu::{
    be16, coil_bits, coil_on, crc_bytes, crc_ok, exception_frame, fc16_value, fc16_values_ok, field_count, field_start,
    frame_accepted, reg_bytes, registers_after, reply_to, request_result, with_crc, ModbusException,
};

verus! {

/// A body followed by its CRC passes the CRC check.
pub proof fn lemma_with_crc_is_intact(body: Seq<u8>)
    ensures
        crc_ok(with_crc(body)),
        with_crc(body).len() == body.len() + 2,
        with_crc(body).subrange(0, body.len() as int) == body,
{
    let f = with_crc(body);
    assert(f.subrange(0, f.len() - 2) =~= body);
    assert(f.subrange(f.len() - 2, f.len() as int) =~= crc_bytes(spec_crc16(body)));
    assert(f.subrange(0, body.len() as int) =~= body);
}

/// Running the CRC over a body followed by its CRC gives zero: a receiver may
/// check a frame by computing the CRC of all of it.
pub proof fn lemma_crc_of_framed_body_is_zero(body: Seq<u8>)
    ensures
        spec_crc16(with_crc(body)) == 0,
{
    let c = spec_crc16(body);
    let lo = (c % 256) as u8;
    let hi = (c / 256) as u8;
    let f = with_crc(body);
    assert(f.drop_last().drop_last() =~= body);
    assert(f.drop_last().last() == lo && f.last() == hi);
    assert(spec_crc16(f.drop_last()) == crc_byte(c, lo));
    assert(spec_crc16(f) == crc_byte(crc_byte(c, lo), hi));
    reveal_with_fuel(crc_shift_n, 9);
    let x = c ^ (lo as u16);
    assert(crc_shift_n(x, 8) == crc_shift8(x));
    let y = crc_shift8(x) ^ (hi as u16);
    assert(crc_shift_n(y, 8) == crc_shift8(y));
    assert(lo == c & 0xFFu16 && hi == c >> 8u16) by (bit_vector)
        requires
            lo == (c % 256) as u8,
            hi == (c / 256) as u8,
    ;
    // The low byte cancels, so the first eight steps only shift the high
    // byte down; it then cancels against the second CRC byte.
    assert(crc_shift8(c ^ (c & 0xFFu16)) == c >> 8u16) by (bit_vector);
    assert(crc_shift8(0u16) == 0u16) by (bit_vector);
    assert(x == c ^ (c & 0xFFu16));
    assert((c >> 8u16) ^ (hi as u16) == 0u16) by (bit_vector)
        requires
            hi == c >> 8u16,
    ;
    assert(y == 0u16);
}

/// Every reply is a frame of at most 256 bytes, sent from this slave's
/// address, whose CRC is intact; its function code is the request's, with
/// bit 7 set exactly when the reply reports an exception.
pub proof fn lemma_replies_are_frames(
    address: u8,
    holding: Seq<u16>,
    coils: Seq<bool>,
    frame: Seq<u8>,
)
    requires
        holding.len() == 64,
        coils.len() == 16,
    ensures
        reply_to(address, holding, coils, frame) matches Some(r) ==> {
            &&& 5 <= r.len() <= 256
            &&& r[0] == address
            &&& crc_ok(r)
            &&& request_result(address, holding, coils, frame) is Ok ==> r[1] == frame[1]
            &&& request_result(address, holding, coils, frame) is Err ==> r[1] == frame[1] | 0x80u8
        },
{
    if frame_accepted(address, frame) {
        match request_result(address, holding, coils, frame) {
            Ok(r) => {
                let fc = frame[1];
                let start = field_start(frame) as int;
                let count = field_count(frame) as int;
                if fc == 0x01 {
                    let body = seq![address, 0x01u8, ((count + 7) / 8) as u8]
                        + crate::modbus_rtu::coil_bytes(coils, start, count);
                    lemma_with_crc_is_intact(body);
                } else if fc == 0x03 {
                    let body = seq![address, 0x03u8, (2 * count) as u8] + reg_bytes(
                        holding,
                        start,
                        count,
                    );
                    lemma_with_crc_is_intact(body);
                } else {
                    lemma_with_crc_is_intact(frame.subrange(0, 6));
                }
            },
            Err(e) => {
                lemma_with_crc_is_intact(seq![address, frame[1] | 0x80u8, e.spec_code()]);
            },
        }
    }
}

/// A frame that is too short, addressed to another slave, or damaged gets no
/// reply and changes no register.
pub proof fn lemma_ignored_frames(address: u8, holding: Seq<u16>, coils: Seq<bool>, frame: Seq<u8>)
    requires
        frame.len() < 6 || frame[0] != address || !crc_ok(frame),
    ensures
        reply_to(address, holding, coils, frame) is None,
        registers_after(address, holding, frame) == holding,
{
}

/// Only FC06 and FC16 change registers: reads and refused function codes
/// leave them as they were.
pub proof fn lemma_only_writes_change_registers(address: u8, holding: Seq<u16>, frame: Seq<u8>)
    requires
        frame.len() >= 2,
        frame[1] != 0x06,
        frame[1] != 0x10,
    ensures
        registers_after(address, holding, frame) == holding,
{
}

/// An unsupported function code is answered with the Illegal Function
/// exception.
pub proof fn lemma_unknown_function(address: u8, holding: Seq<u16>, coils: Seq<bool>, frame: Seq<u8>)
    requires
        frame_accepted(address, frame),
        frame[1] != 0x01 && frame[1] != 0x03 && frame[1] != 0x06 && frame[1] != 0x10,
    ensures
        reply_to(address, holding, coils, frame) == Some(
            exception_frame(address, frame[1], ModbusException::IllegalFunction),
        ),
{
}

/// FC06 answers a complete request with the request itself.
pub proof fn lemma_fc06_echoes_request(
    address: u8,
    holding: Seq<u16>,
    coils: Seq<bool>,
    frame: Seq<u8>,
)
    requires
        frame_accepted(address, frame),
        frame.len() == 8,
        frame[1] == 0x06,
        field_start(frame) < holding.len(),
    ensures
        reply_to(address, holding, coils, frame) == Some(frame),
{
    let body = frame.subrange(0, 6);
    assert(frame =~= body + frame.subrange(6, 8));
}

/// A register written by FC06 reads back, through FC03, the value written.
pub proof fn lemma_fc06_then_fc03(
    address: u8,
    holding: Seq<u16>,
    coils: Seq<bool>,
    write: Seq<u8>,
    read: Seq<u8>,
)
    requires
        holding.len() == 64,
        frame_accepted(address, write),
        write[1] == 0x06,
        field_start(write) < 64,
        frame_accepted(address, read),
        read[1] == 0x03,
        field_start(read) == field_start(write),
        field_count(read) == 1,
    ensures
        ({
            let v = field_count(write);
            reply_to(address, registers_after(address, holding, write), coils, read) == Some(
                with_crc(seq![address, 0x03u8, 2u8, (v / 256) as u8, (v % 256) as u8]),
            )
        }),
{
    let v = field_count(write);
    let after = registers_after(address, holding, write);
    let start = field_start(read) as int;
    assert(after[start] == v);
    let rb = reg_bytes(after, start, 1);
    assert(rb =~= seq![(v / 256) as u8, (v % 256) as u8]);
    assert(seq![address, 0x03u8, 2u8] + rb =~= seq![address, 0x03u8, 2u8, (v / 256) as u8, (v % 256) as u8]);
}

/// FC16 writes, in order, the values its request carries: when the whole
/// range lies in the table, register `start + i` ends up holding the `i`-th
/// value and every register outside the range keeps its value.
pub proof fn lemma_fc16_writes_values(address: u8, holding: Seq<u16>, frame: Seq<u8>, p: int)
    requires
        frame_accepted(address, frame),
        frame[1] == 0x10,
        fc16_values_ok(frame),
        field_start(frame) + field_count(frame) <= holding.len(),
        0 <= p < holding.len(),
    ensures
        ({
            let start = field_start(frame) as int;
            let count = field_count(frame) as int;
            let after = registers_after(address, holding, frame);
            &&& after.len() == holding.len()
            &&& start <= p < start + count ==> after[p] == fc16_value(frame, p - start)
            &&& !(start <= p < start + count) ==> after[p] == holding[p]
        }),
{
}

proof fn lemma_set_bit(x: u8, m: u8, b: u8)
    requires
        m < 8,
        b < 8,
    ensures
        ((x | (1u8 << m)) >> b) & 1u8 == if b == m {
            1u8
        } else {
            (x >> b) & 1u8
        },
{
    assert(m < 8 && b < 8 ==> ((x | (1u8 << m)) >> b) & 1u8 == if b == m {
        1u8
    } else {
        (x >> b) & 1u8
    }) by (bit_vector);
}

proof fn lemma_coil_bits_prefix(coils: Seq<bool>, start: int, count: int, k: int, n: nat, b: u8)
    requires
        n <= 8,
        b < 8,
    ensures
        ((coil_bits(coils, start, count, k, n) >> b) & 1u8 == 1u8) == (b < n && coil_on(
            coils,
            start,
            count,
            8 * k + b,
        )),
    decreases n,
{
    if n == 0 {
        assert((0u8 >> b) & 1u8 == 0u8) by (bit_vector);
    } else {
        let m = (n - 1) as nat;
        lemma_coil_bits_prefix(coils, start, count, k, m, b);
        let prev = coil_bits(coils, start, count, k, m);
        if coil_on(coils, start, count, 8 * k + m) {
            lemma_set_bit(prev, m as u8, b);
        }
    }
}

/// FC01 packs coil states least significant bit first: bit `b` of data byte
/// `k` is set exactly when coil `start + 8 * k + b` is among those read and on.
pub proof fn lemma_coil_byte_bits(coils: Seq<bool>, start: int, count: int, k: int, b: u8)
    requires
        b < 8,
    ensures
        ((coil_bits(coils, start, count, k, 8) >> b) & 1u8 == 1u8) == (8 * k + b < count
            && coils[start + 8 * k + b]),
{
    lemma_coil_bits_prefix(coils, start, count, k, 8, b);
}

} // verus!
