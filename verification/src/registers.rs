use vstd::prelude::*;

verus! {

/// One of the four status flags held in the top nibble of the flag register.
#[derive(Clone, Copy, Debug, PartialEq, Eq, Structural)]
pub enum Flag {
    /// Zero.
    Z,
    /// Subtract.
    N,
    /// Half-carry.
    H,
    /// Carry.
    C,
}

/// An 8-bit register.
#[derive(Clone, Copy, Debug, PartialEq, Eq, Structural)]
pub enum Reg8 {
    A,
    F,
    B,
    C,
    D,
    E,
    H,
    L,
}

/// Two 8-bit registers read and written as one 16-bit value, high half first.
#[derive(Clone, Copy, Debug, PartialEq, Eq, Structural)]
pub enum Reg16 {
    AF,
    BC,
    DE,
    HL,
}

/// The bit of the flag register that a flag occupies.
pub open spec fn flag_mask(flag: Flag) -> u8 {
    match flag {
        Flag::Z => 0x80u8,
        Flag::N => 0x40u8,
        Flag::H => 0x20u8,
        Flag::C => 0x10u8,
    }
}

/// The high half of a register pair.
pub open spec fn high_of(pair: Reg16) -> Reg8 {
    match pair {
        Reg16::AF => Reg8::A,
        Reg16::BC => Reg8::B,
        Reg16::DE => Reg8::D,
        Reg16::HL => Reg8::H,
    }
}

/// The low half of a register pair.
pub open spec fn low_of(pair: Reg16) -> Reg8 {
    match pair {
        Reg16::AF => Reg8::F,
        Reg16::BC => Reg8::C,
        Reg16::DE => Reg8::E,
        Reg16::HL => Reg8::L,
    }
}

/// The value a register holds after `value` is written to it: the flag
/// register drops the low nibble, every other register keeps the byte whole.
pub open spec fn stored(reg: Reg8, value: u8) -> u8 {
    if reg == Reg8::F {
        value & 0xF0u8
    } else {
        value
    }
}

/// The register file as plain values.
pub struct RegisterValues {
    pub a: u8,
    pub f: u8,
    pub b: u8,
    pub c: u8,
    pub d: u8,
    pub e: u8,
    pub h: u8,
    pub l: u8,
    pub sp: u16,
}

impl RegisterValues {
    /// The byte in an 8-bit register.
    pub open spec fn get8(self, reg: Reg8) -> u8 {
        match reg {
            Reg8::A => self.a,
            Reg8::F => self.f,
            Reg8::B => self.b,
            Reg8::C => self.c,
            Reg8::D => self.d,
            Reg8::E => self.e,
            Reg8::H => self.h,
            Reg8::L => self.l,
        }
    }

    /// The register file with one 8-bit register replaced by `stored(reg, value)`.
    pub open spec fn put8(self, reg: Reg8, value: u8) -> RegisterValues {
        let v = stored(reg, value);
        match reg {
            Reg8::A => RegisterValues { a: v, ..self },
            Reg8::F => RegisterValues { f: v, ..self },
            Reg8::B => RegisterValues { b: v, ..self },
            Reg8::C => RegisterValues { c: v, ..self },
            Reg8::D => RegisterValues { d: v, ..self },
            Reg8::E => RegisterValues { e: v, ..self },
            Reg8::H => RegisterValues { h: v, ..self },
            Reg8::L => RegisterValues { l: v, ..self },
        }
    }

    /// The 16-bit value of a pair: the high half times 256 plus the low half.
    pub open spec fn get16(self, pair: Reg16) -> int {
        self.get8(high_of(pair)) * 256 + self.get8(low_of(pair))
    }

    /// The register file with both halves of a pair written from `value`.
    pub open spec fn put16(self, pair: Reg16, value: u16) -> RegisterValues {
        self.put8(high_of(pair), (value / 256) as u8).put8(low_of(pair), (value % 256) as u8)
    }

    /// Whether a flag is raised.
    pub open spec fn flag(self, flag: Flag) -> bool {
        self.f & flag_mask(flag) != 0
    }
}

/// The register file: eight 8-bit registers and the stack pointer.
///
/// The low nibble of the flag register is zero at all times.
#[derive(Clone, Copy, Debug)]
pub struct Registers {
    a: u8,
    f: u8,
    b: u8,
    c: u8,
    d: u8,
    e: u8,
    h: u8,
    l: u8,
    sp: u16,
}

impl View for Registers {
    type V = RegisterValues;

    closed spec fn view(&self) -> RegisterValues {
        RegisterValues {
            a: self.a,
            f: self.f,
            b: self.b,
            c: self.c,
            d: self.d,
            e: self.e,
            h: self.h,
            l: self.l,
            sp: self.sp,
        }
    }
}

impl Registers {
    #[verifier::type_invariant]
    spec fn low_nibble_clear(self) -> bool {
        self.f & 0x0Fu8 == 0
    }

    /// A register file with every register at zero.
    pub fn new() -> (r: Registers)
        ensures
            r@ == (RegisterValues { a: 0, f: 0, b: 0, c: 0, d: 0, e: 0, h: 0, l: 0, sp: 0 }),
    {
        assert(0u8 & 0x0Fu8 == 0) by (bit_vector);
        Registers { a: 0, f: 0, b: 0, c: 0, d: 0, e: 0, h: 0, l: 0, sp: 0 }
    }

    /// Reads an 8-bit register. The flag register always reads with a zero low nibble.
    pub fn read8(&self, reg: Reg8) -> (value: u8)
        ensures
            value == self@.get8(reg),
            reg == Reg8::F ==> value & 0x0Fu8 == 0,
    {
        proof {
            use_type_invariant(self);
        }
        match reg {
            Reg8::A => self.a,
            Reg8::F => self.f,
            Reg8::B => self.b,
            Reg8::C => self.c,
            Reg8::D => self.d,
            Reg8::E => self.e,
            Reg8::H => self.h,
            Reg8::L => self.l,
        }
    }

    /// Writes an 8-bit register and leaves the others as they were. A write to
    /// the flag register keeps only the top nibble of `value`.
    pub fn write8(&mut self, reg: Reg8, value: u8)
        ensures
            final(self)@ == old(self)@.put8(reg, value),
    {
        proof {
            use_type_invariant(&*self);
        }
        match reg {
            Reg8::A => {
                self.a = value;
            },
            Reg8::F => {
                let kept: u8 = value & 0xF0;
                assert((value & 0xF0u8) & 0x0Fu8 == 0) by (bit_vector);
                self.f = kept;
            },
            Reg8::B => {
                self.b = value;
            },
            Reg8::C => {
                self.c = value;
            },
            Reg8::D => {
                self.d = value;
            },
            Reg8::E => {
                self.e = value;
            },
            Reg8::H => {
                self.h = value;
            },
            Reg8::L => {
                self.l = value;
            },
        }
    }

    /// Reads a register pair as one 16-bit value. The pair that holds the
    /// flag register always reads with a zero low nibble.
    pub fn read16(&self, pair: Reg16) -> (value: u16)
        ensures
            value == self@.get16(pair),
            pair == Reg16::AF ==> value & 0x000Fu16 == 0,
    {
        proof {
            use_type_invariant(self);
        }
        let (hi, lo): (u8, u8) = match pair {
            Reg16::AF => (self.a, self.f),
            Reg16::BC => (self.b, self.c),
            Reg16::DE => (self.d, self.e),
            Reg16::HL => (self.h, self.l),
        };
        assert((((hi as u16) << 8) | (lo as u16)) == (hi as u16) * 256 + (lo as u16))
            by (bit_vector);
        assert(lo & 0x0Fu8 == 0 ==> (((hi as u16) << 8) | (lo as u16)) & 0x000Fu16 == 0)
            by (bit_vector);
        ((hi as u16) << 8) | (lo as u16)
    }

    /// Writes both halves of a register pair from one 16-bit value.
    pub fn write16(&mut self, pair: Reg16, value: u16)
        ensures
            final(self)@ == old(self)@.put16(pair, value),
    {
        assert((value >> 8) == value / 256 && (value & 0xFF) == value % 256) by (bit_vector);
        let hi: u8 = (value >> 8) as u8;
        let lo: u8 = (value & 0xFF) as u8;
        match pair {
            Reg16::AF => {
                self.write8(Reg8::A, hi);
                self.write8(Reg8::F, lo);
            },
            Reg16::BC => {
                self.write8(Reg8::B, hi);
                self.write8(Reg8::C, lo);
            },
            Reg16::DE => {
                self.write8(Reg8::D, hi);
                self.write8(Reg8::E, lo);
            },
            Reg16::HL => {
                self.write8(Reg8::H, hi);
                self.write8(Reg8::L, lo);
            },
        }
    }

    /// Reads the stack pointer.
    pub fn sp(&self) -> (value: u16)
        ensures
            value == self@.sp,
    {
        self.sp
    }

    /// Writes the stack pointer and leaves the other registers as they were.
    pub fn set_sp(&mut self, value: u16)
        ensures
            final(self)@ == (RegisterValues { sp: value, ..old(self)@ }),
    {
        proof {
            use_type_invariant(&*self);
        }
        self.sp = value;
    }

    /// Tests a flag.
    pub fn flag(&self, flag: Flag) -> (raised: bool)
        ensures
            raised == self@.flag(flag),
    {
        let mask: u8 = match flag {
            Flag::Z => 0x80,
            Flag::N => 0x40,
            Flag::H => 0x20,
            Flag::C => 0x10,
        };
        self.f & mask != 0
    }

    /// Raises a flag; the other flags and registers stay as they were.
    pub fn set_flag(&mut self, flag: Flag)
        ensures
            final(self)@ == (RegisterValues { f: old(self)@.f | flag_mask(flag), ..old(self)@ }),
            final(self)@.flag(flag),
            forall|other: Flag| other != flag ==> final(self)@.flag(other) == old(self)@.flag(other),
    {
        proof {
            use_type_invariant(&*self);
            lemma_flag_bits(self.f, flag);
        }
        let mask: u8 = match flag {
            Flag::Z => 0x80,
            Flag::N => 0x40,
            Flag::H => 0x20,
            Flag::C => 0x10,
        };
        self.f = self.f | mask;
    }

    /// Lowers a flag; the other flags and registers stay as they were.
    pub fn clear_flag(&mut self, flag: Flag)
        ensures
            final(self)@ == (RegisterValues { f: old(self)@.f & !flag_mask(flag), ..old(self)@ }),
            !final(self)@.flag(flag),
            forall|other: Flag| other != flag ==> final(self)@.flag(other) == old(self)@.flag(other),
    {
        proof {
            use_type_invariant(&*self);
            lemma_flag_bits(self.f, flag);
        }
        let mask: u8 = match flag {
            Flag::Z => 0x80,
            Flag::N => 0x40,
            Flag::H => 0x20,
            Flag::C => 0x10,
        };
        self.f = self.f & !mask;
    }
}

/// Reading a pair back after a write gives the value written; for the pair
/// that holds the flag register, the value without its low nibble.
pub proof fn lemma_pair_round_trip(registers: RegisterValues, pair: Reg16, value: u16)
    ensures
        registers.put16(pair, value).get16(pair) == if pair == Reg16::AF {
            value - value % 16
        } else {
            value as int
        },
{
    let hi = (value / 256) as u8;
    let lo = (value % 256) as u8;
    assert(hi * 256 + lo == value);
    assert((lo & 0xF0u8) == lo - lo % 16) by (bit_vector);
}

/// A write to one 8-bit register shows in that register and in no other.
pub proof fn lemma_write_is_local(registers: RegisterValues, reg: Reg8, value: u8, other: Reg8)
    ensures
        registers.put8(reg, value).get8(reg) == stored(reg, value),
        other != reg ==> registers.put8(reg, value).get8(other) == registers.get8(other),
        registers.put8(reg, value).sp == registers.sp,
        stored(Reg8::F, value) & 0x0Fu8 == 0,
{
    assert((value & 0xF0u8) & 0x0Fu8 == 0) by (bit_vector);
}

/// Raising or lowering one flag bit changes that flag and no other, and keeps
/// a clear low nibble clear.
pub proof fn lemma_flag_bits(f: u8, flag: Flag)
    ensures
        (f | flag_mask(flag)) & flag_mask(flag) != 0,
        (f & !flag_mask(flag)) & flag_mask(flag) == 0,
        forall|other: Flag|
            other != flag ==> ((f | flag_mask(flag)) & #[trigger] flag_mask(other) != 0) == (f
                & flag_mask(other) != 0),
        forall|other: Flag|
            other != flag ==> ((f & !flag_mask(flag)) & #[trigger] flag_mask(other) != 0) == (f
                & flag_mask(other) != 0),
        f & 0x0Fu8 == 0 ==> (f | flag_mask(flag)) & 0x0Fu8 == 0,
        f & 0x0Fu8 == 0 ==> (f & !flag_mask(flag)) & 0x0Fu8 == 0,
{
    let m = flag_mask(flag);
    assert(m == 0x80u8 || m == 0x40u8 || m == 0x20u8 || m == 0x10u8);
    assert((m == 0x80u8 || m == 0x40u8 || m == 0x20u8 || m == 0x10u8) ==> (f | m) & m != 0 && (f
        & !m) & m == 0 && (f & 0x0Fu8 == 0 ==> (f | m) & 0x0Fu8 == 0 && (f & !m) & 0x0Fu8 == 0))
        by (bit_vector);
    assert forall|other: Flag| other != flag implies ((f | m) & #[trigger] flag_mask(other) != 0)
        == (f & flag_mask(other) != 0) && ((f & !m) & flag_mask(other) != 0) == (f & flag_mask(
        other,
    ) != 0) by {
        let o = flag_mask(other);
        assert(o == 0x80u8 || o == 0x40u8 || o == 0x20u8 || o == 0x10u8);
        assert(o != m);
        assert((m == 0x80u8 || m == 0x40u8 || m == 0x20u8 || m == 0x10u8) && (o == 0x80u8 || o
            == 0x40u8 || o == 0x20u8 || o == 0x10u8) && o != m ==> ((f | m) & o != 0) == (f & o
            != 0) && ((f & !m) & o != 0) == (f & o != 0)) by (bit_vector);
    }
}

} // verus!
