use vstd::prelude::*;
use crate::registers::{RegisterValues, Registers};

verus! {

/// The address at which execution starts and at which a program image is placed.
pub const ENTRY_POINT: u16 = 0x100;

/// The number of bytes in the address space.
pub const MEMORY_SIZE: usize = 0x10000;

/// The highest address; the program counter never goes past it.
pub const TOP_ADDRESS: u16 = 0xFFFF;

/// A program image too long to fit between the entry point and the top of memory.
#[derive(Clone, Copy, Debug, PartialEq, Eq, Structural)]
pub struct RomTooLarge {
    /// The length of the rejected image in bytes.
    pub len: usize,
}

/// Whether an image of `len` bytes fits between the entry point and the top of memory.
pub open spec fn image_fits(len: nat) -> bool {
    len + 0x100 <= 0x10000
}

/// Memory `ram` with `image` laid over it from the entry point on.
pub open spec fn with_image(ram: Seq<u8>, image: Seq<u8>) -> Seq<u8> {
    Seq::new(
        ram.len(),
        |i: int|
            if 0x100 <= i < 0x100 + image.len() {
                image[i - 0x100]
            } else {
                ram[i]
            },
    )
}

/// Processor state: program counter, register file and the 64 KiB address space.
pub struct CPU {
    pub pc: u16,
    pub registers: Registers,
    pub ram: [u8; 0x10000],
}

impl CPU {
    /// A processor at the entry point, with all registers and memory zeroed.
    pub fn new() -> (cpu: CPU)
        ensures
            cpu.pc == 0x100,
            cpu.registers@ == (RegisterValues {
                a: 0,
                f: 0,
                b: 0,
                c: 0,
                d: 0,
                e: 0,
                h: 0,
                l: 0,
                sp: 0,
            }),
            cpu.ram@ == Seq::new(0x10000, |i: int| 0u8),
    {
        let cpu = CPU { pc: ENTRY_POINT, registers: Registers::new(), ram: [0; 0x10000] };
        assert(cpu.ram@ =~= Seq::new(0x10000, |i: int| 0u8));
        cpu
    }

    /// Copies a program image into memory from the entry point on.
    ///
    /// An image that does not fit is refused and nothing is written.
    pub fn load_program(&mut self, bytes: &[u8]) -> (result: Result<(), RomTooLarge>)
        ensures
            result is Ok <==> image_fits(bytes@.len()),
            result is Ok ==> final(self).ram@ == with_image(old(self).ram@, bytes@),
            result is Ok ==> final(self).pc == old(self).pc && final(self).registers == old(
                self,
            ).registers,
            result is Err ==> *final(self) == *old(self),
            result is Err ==> result->Err_0.len == bytes@.len(),
    {
        let n: usize = bytes.len();
        let start: usize = ENTRY_POINT as usize;
        if n > MEMORY_SIZE - start {
            return Err(RomTooLarge { len: n });
        }
        let mut i: usize = 0;
        while i < n
            invariant
                n == bytes@.len(),
                start == 0x100,
                n <= 0x10000 - 0x100,
                i <= n,
                self.pc == old(self).pc,
                self.registers == old(self).registers,
                self.ram@ == with_image(old(self).ram@, bytes@.take(i as int)),
            decreases n - i,
        {
            self.ram[start + i] = bytes[i];
            i = i + 1;
            assert(self.ram@ =~= with_image(old(self).ram@, bytes@.take(i as int)));
        }
        assert(bytes@.take(n as int) =~= bytes@);
        Ok(())
    }
}

} // verus!
