use vstd::prelude::*;

verus! {

/// Application register addresses.
pub const REG_TEMPERATURE: u16 = 0;  // °C × 10
pub const REG_HUMIDITY: u16 = 1;  // % × 10
pub const REG_PRESSURE: u16 = 2;  // hPa
pub const REG_SETPOINT: u16 = 10;  // configurable setpoint
pub const REG_STATUS: u16 = 20;  // status bitfield

pub const HOLDING_REG_COUNT: usize = 64;
pub const COIL_COUNT: usize = 16;

/// The value stored at `addr`, or `None` when `addr` is past the end.
pub open spec fn read_at<T>(s: Seq<T>, addr: u16) -> Option<T> {
    if addr < s.len() {
        Some(s[addr as int])
    } else {
        None
    }
}

/// The table after storing `value` at `addr`; unchanged when `addr` is past the end.
pub open spec fn write_at<T>(s: Seq<T>, addr: u16, value: T) -> Seq<T> {
    if addr < s.len() {
        s.update(addr as int, value)
    } else {
        s
    }
}

/// Read after write: the written slot reads back the written value, every
/// other slot reads back what it held before, and a write past the end
/// changes nothing.
pub proof fn lemma_read_after_write<T>(s: Seq<T>, addr: u16, value: T, other: u16)
    ensures
        addr < s.len() ==> read_at(write_at(s, addr, value), addr) == Some(value),
        other != addr ==> read_at(write_at(s, addr, value), other) == read_at(s, other),
        addr >= s.len() ==> write_at(s, addr, value) == s,
        write_at(s, addr, value).len() == s.len(),
{
}

/// The register table: 64 holding registers and 16 coils.
pub struct RegisterMap {
    pub holding_regs: [u16; HOLDING_REG_COUNT],
    pub coils: [bool; COIL_COUNT],
}

impl RegisterMap {
    /// All registers at zero, all coils off.
    pub fn new() -> (m: Self)
        ensures
            m.holding_regs@ == Seq::new(64, |i: int| 0u16),
            m.coils@ == Seq::new(16, |i: int| false),
    {
        let m = RegisterMap { holding_regs: [0u16; HOLDING_REG_COUNT], coils: [false; COIL_COUNT] };
        assert(m.holding_regs@ =~= Seq::new(64, |i: int| 0u16));
        assert(m.coils@ =~= Seq::new(16, |i: int| false));
        m
    }

    /// Reads a holding register; `None` when out of range.
    pub fn read_reg(&self, addr: u16) -> (r: Option<u16>)
        ensures
            r == read_at(self.holding_regs@, addr),
            addr < 64 ==> r == Some(self.holding_regs@[addr as int]),
            addr >= 64 ==> r is None,
    {
        if (addr as usize) < HOLDING_REG_COUNT {
            Some(self.holding_regs[addr as usize])
        } else {
            None
        }
    }

    /// Writes a holding register; `false` (and nothing written) when out of range.
    pub fn write_reg(&mut self, addr: u16, value: u16) -> (ok: bool)
        ensures
            ok == (addr < HOLDING_REG_COUNT),
            final(self).holding_regs@ == write_at(old(self).holding_regs@, addr, value),
            addr < 64 ==> final(self).holding_regs@[addr as int] == value,
            forall|p: int| 0 <= p < 64 && p != addr ==> #[trigger] final(self).holding_regs@[p]
                == old(self).holding_regs@[p],
            final(self).coils@ == old(self).coils@,
    {
        if (addr as usize) < HOLDING_REG_COUNT {
            self.holding_regs[addr as usize] = value;
            true
        } else {
            false
        }
    }

    /// Reads a coil; `None` when out of range.
    pub fn read_coil(&self, addr: u16) -> (r: Option<bool>)
        ensures
            r == read_at(self.coils@, addr),
            addr < 16 ==> r == Some(self.coils@[addr as int]),
            addr >= 16 ==> r is None,
    {
        if (addr as usize) < COIL_COUNT {
            Some(self.coils[addr as usize])
        } else {
            None
        }
    }

    /// Writes a coil; `false` (and nothing written) when out of range.
    pub fn write_coil(&mut self, addr: u16, value: bool) -> (ok: bool)
        ensures
            ok == (addr < COIL_COUNT),
            final(self).coils@ == write_at(old(self).coils@, addr, value),
            addr < 16 ==> final(self).coils@[addr as int] == value,
            forall|p: int| 0 <= p < 16 && p != addr ==> #[trigger] final(self).coils@[p]
                == old(self).coils@[p],
            final(self).holding_regs@ == old(self).holding_regs@,
    {
        if (addr as usize) < COIL_COUNT {
            self.coils[addr as usize] = value;
            true
        } else {
            false
        }
    }
}

} // verus!
