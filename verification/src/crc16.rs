use vstd::prelude::*;

verus! {

/// One bit step of the reflected Modbus CRC: shift right, and fold in the
/// polynomial 0xA001 when the bit shifted out was set.
pub open spec fn crc_shift(v: u16) -> u16 {
    if v & 1 != 0 {
        (v >> 1u16) ^ 0xA001u16
    } else {
        v >> 1u16
    }
}

/// `n` bit steps applied to `v`.
pub open spec fn crc_shift_n(v: u16, n: nat) -> u16
    decreases n,
{
    if n == 0 {
        v
    } else {
        crc_shift(crc_shift_n(v, (n - 1) as nat))
    }
}

/// The eight bit steps that process one byte, written out.
pub open spec fn crc_shift8(v: u16) -> u16 {
    crc_shift(crc_shift(crc_shift(crc_shift(crc_shift(crc_shift(crc_shift(crc_shift(v))))))))
}

/// Folding one byte into a running CRC, bit by bit.
pub open spec fn crc_byte(crc: u16, byte: u8) -> u16 {
    crc_shift_n(crc ^ (byte as u16), 8)
}

/// CRC16/Modbus of a byte sequence: initial value 0xFFFF, reflected
/// polynomial 0xA001, bytes processed in order, no final xor.
pub open spec fn spec_crc16(data: Seq<u8>) -> u16
    decreases data.len(),
{
    if data.len() == 0 {
        0xFFFFu16
    } else {
        crc_byte(spec_crc16(data.drop_last()), data.last())
    }
}

/// The lookup-table entry for index `i`: the CRC of `i` after eight bit steps.
pub open spec fn crc_table_entry(i: u16) -> u16 {
    crc_shift_n(i, 8)
}

proof fn lemma_shift_n_eight(v: u16)
    ensures
        crc_shift_n(v, 8) == crc_shift8(v),
{
    reveal_with_fuel(crc_shift_n, 9);
}

/// Processing one byte through the table equals processing its eight bits.
pub proof fn lemma_table_step(crc: u16, byte: u8)
    ensures
        crc_byte(crc, byte) == (crc >> 8u16) ^ crc_table_entry((crc ^ (byte as u16)) & 0xFFu16),
{
    let b = byte as u16;
    lemma_shift_n_eight(crc ^ b);
    lemma_shift_n_eight((crc ^ b) & 0xFFu16);
    assert(b < 256 ==> crc_shift8(crc ^ b) == (crc >> 8u16) ^ crc_shift8((crc ^ b) & 0xFFu16))
        by (bit_vector);
}

/// Builds the 256-entry lookup table of the Modbus CRC.
pub fn generate_table() -> (table: [u16; 256])
    ensures
        forall|i: int| 0 <= i < 256 ==> table@[i] == crc_table_entry(i as u16),
{
    let mut table = [0u16; 256];
    let mut i: usize = 0;
    while i < 256
        invariant
            i <= 256,
            forall|k: int| 0 <= k < i ==> table@[k] == crc_table_entry(k as u16),
        decreases 256 - i,
    {
        let mut crc: u16 = i as u16;
        let mut j: u32 = 0;
        while j < 8
            invariant
                j <= 8,
                i < 256,
                crc == crc_shift_n(i as u16, j as nat),
            decreases 8 - j,
        {
            if crc & 0x0001 != 0 {
                crc = (crc >> 1) ^ 0xA001;
            } else {
                crc >>= 1;
            }
            j += 1;
        }
        table[i] = crc;
        i += 1;
    }
    table
}

/// `t` is the lookup table of the Modbus CRC.
pub open spec fn is_crc_table(t: Seq<u16>) -> bool {
    &&& t.len() == 256
    &&& forall|i: int| 0 <= i < 256 ==> t[i] == crc_table_entry(i as u16)
}

/// CRC16 Modbus of `data`, computed with the lookup table `table`.
pub fn crc16_with_table(table: &[u16; 256], data: &[u8]) -> (crc: u16)
    requires
        is_crc_table(table@),
    ensures
        crc == spec_crc16(data@),
{
    let mut crc: u16 = 0xFFFF;
    let mut k: usize = 0;
    while k < data.len()
        invariant
            k <= data.len(),
            crc == spec_crc16(data@.subrange(0, k as int)),
            is_crc_table(table@),
        decreases data.len() - k,
    {
        let byte = data[k];
        let idx = (crc ^ byte as u16) & 0xFF;
        proof {
            lemma_table_step(crc, byte);
            assert((crc ^ (byte as u16)) & 0xFFu16 <= 0xFFu16) by (bit_vector);
            assert(data@.subrange(0, k + 1).drop_last() == data@.subrange(0, k as int));
        }
        crc = (crc >> 8) ^ table[idx as usize];
        k += 1;
    }
    assert(data@.subrange(0, data.len() as int) == data@);
    crc
}

/// CRC16 Modbus (polynomial 0xA001, bits processed low first), computed with
/// a 256-entry lookup table built for the call. A slave keeps its own table
/// and uses `crc16_with_table`.
pub fn crc16(data: &[u8]) -> (crc: u16)
    ensures
        crc == spec_crc16(data@),
{
    let table = generate_table();
    crc16_with_table(&table, data)
}

} // verus!
