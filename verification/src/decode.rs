use vstd::prelude::*;
use crate::catalog::{
    has_inline_operand, lemma_no_inline_operand, measure_operands, operands_len, InstructionSet,
    Tables,
};
use crate::cpu::TOP_ADDRESS;
use crate::cpu::CPU;

verus! {

/// The byte that escapes into the prefixed opcode space.
pub const PREFIX: u8 = 0xCB;

/// Why the decode loop stopped.
#[derive(Clone, Copy, Debug, PartialEq, Eq, Structural)]
pub enum HaltReason {
    /// The program counter reached the top of the address space.
    PcOverflow,
    /// The catalog has no entry for the opcode fetched at `address`.
    UnknownOpcode { prefixed: bool, opcode: u8, address: u16 },
}

/// The state of the decode loop. `Halted` is final.
#[derive(Clone, Copy, Debug, PartialEq, Eq, Structural)]
pub enum LoopState {
    Running,
    Halted(HaltReason),
}

/// The opcode found at an address, and the opcode space it belongs to.
#[derive(Clone, Copy, Debug, PartialEq, Eq, Structural)]
pub struct Fetched {
    /// Whether the opcode stood behind the prefix byte.
    pub prefixed: bool,
    pub opcode: u8,
    /// The address of the first byte of the instruction.
    pub address: u16,
}

impl Fetched {
    /// The number of bytes fetched: the opcode, and the prefix where there is one.
    pub open spec fn len(self) -> int {
        if self.prefixed {
            2
        } else {
            1
        }
    }
}

/// The program counter and the loop state after one step.
pub struct Outcome {
    pub pc: u16,
    pub state: LoopState,
}

/// How a run of the loop ended.
#[derive(Clone, Copy, Debug, PartialEq, Eq, Structural)]
pub struct Halt {
    pub reason: HaltReason,
    /// The number of steps taken, the halting one included.
    pub steps: u32,
}

/// The end of a run as plain values: where the program counter came to rest,
/// why the loop stopped, and after how many steps.
pub struct RunEnd {
    pub pc: u16,
    pub reason: HaltReason,
    pub steps: nat,
}

/// An address held within the address space: anything at or past the top
/// address becomes the top address.
pub open spec fn clamp(address: int) -> u16 {
    if address < 0xFFFF {
        address as u16
    } else {
        0xFFFFu16
    }
}

/// The opcode that a fetch at `pc` finds. A byte other than the prefix is an
/// unprefixed opcode; behind the prefix, the next byte is a prefixed opcode.
/// A prefix in the last byte of memory has no opcode behind it.
pub open spec fn fetch_of(ram: Seq<u8>, pc: u16) -> Option<Fetched> {
    if ram[pc as int] != 0xCB {
        Some(Fetched { prefixed: false, opcode: ram[pc as int], address: pc })
    } else if pc < 0xFFFF {
        Some(Fetched { prefixed: true, opcode: ram[pc + 1], address: pc })
    } else {
        None
    }
}

/// One step of the decode loop from `pc`: fetch, resolve against the catalog,
/// skip the inline operands, and halt at the top of the address space.
pub open spec fn step_of(ram: Seq<u8>, pc: u16, tables: Tables) -> Outcome {
    match fetch_of(ram, pc) {
        None => Outcome { pc: 0xFFFF, state: LoopState::Halted(HaltReason::PcOverflow) },
        Some(fetched) => match tables.lookup(fetched.prefixed, fetched.opcode) {
            None => Outcome {
                pc: clamp(pc + fetched.len()),
                state: LoopState::Halted(
                    HaltReason::UnknownOpcode {
                        prefixed: fetched.prefixed,
                        opcode: fetched.opcode,
                        address: pc,
                    },
                ),
            },
            Some(instruction) => {
                let target = pc + fetched.len() + operands_len(instruction.operands@);
                Outcome {
                    pc: clamp(target),
                    state: if target >= 0xFFFF {
                        LoopState::Halted(HaltReason::PcOverflow)
                    } else {
                        LoopState::Running
                    },
                }
            },
        },
    }
}

/// The whole run of the decode loop from `pc`: step after step until one halts.
pub open spec fn run_of(ram: Seq<u8>, pc: u16, tables: Tables) -> RunEnd
    decreases 0xFFFF - pc,
{
    let outcome = step_of(ram, pc, tables);
    match outcome.state {
        LoopState::Halted(reason) => RunEnd { pc: outcome.pc, reason, steps: 1 },
        LoopState::Running => {
            let rest = run_of(ram, outcome.pc, tables);
            RunEnd { steps: rest.steps + 1, ..rest }
        },
    }
}

/// A step never moves the program counter back, and moves it forward by at
/// least one byte from anywhere below the top address. A step that leaves the
/// loop running has left the program counter below the top address.
pub proof fn lemma_step_moves_forward(ram: Seq<u8>, pc: u16, tables: Tables)
    ensures
        pc <= step_of(ram, pc, tables).pc,
        pc < 0xFFFF ==> pc < step_of(ram, pc, tables).pc,
        step_of(ram, pc, tables).state == LoopState::Running ==> pc < step_of(ram, pc, tables).pc
            < 0xFFFF,
        step_of(ram, pc, tables).state != LoopState::Running ==> step_of(ram, pc, tables).state
            is Halted,
{
}

/// The loop always halts: from any program counter, over any memory and any
/// catalog, the run ends after at least one step and at most as many steps as
/// there are addresses between the program counter and the top address.
pub proof fn lemma_run_halts(ram: Seq<u8>, pc: u16, tables: Tables)
    ensures
        1 <= run_of(ram, pc, tables).steps,
        pc < 0xFFFF ==> run_of(ram, pc, tables).steps <= 0xFFFF - pc,
        pc == 0xFFFF ==> run_of(ram, pc, tables).steps == 1,
        pc <= run_of(ram, pc, tables).pc,
    decreases 0xFFFF - pc,
{
    let outcome = step_of(ram, pc, tables);
    if outcome.state == LoopState::Running {
        lemma_step_moves_forward(ram, pc, tables);
        lemma_run_halts(ram, outcome.pc, tables);
    }
}

/// Decoding an unprefixed opcode that the catalog knows moves the program
/// counter by one byte plus the inline operand bytes, which is the length the
/// entry declares, as long as that stays within the address space.
pub proof fn lemma_unprefixed_step_length(ram: Seq<u8>, pc: u16, tables: Tables)
    requires
        tables.well_formed(),
        ram[pc as int] != 0xCB,
        tables.unprefixed.contains_key(ram[pc as int]),
        pc + tables.unprefixed[ram[pc as int]].bytes <= 0xFFFF,
    ensures
        step_of(ram, pc, tables).pc == pc + 1 + operands_len(
            tables.unprefixed[ram[pc as int]].operands@,
        ),
        step_of(ram, pc, tables).pc == pc + tables.unprefixed[ram[pc as int]].bytes,
{
    let instruction = tables.unprefixed[ram[pc as int]];
    assert(instruction.lengths_agree(false));
    if !has_inline_operand(instruction.operands@) {
        lemma_no_inline_operand(instruction.operands@);
    }
}

/// An opcode without an entry in its table halts the loop, and the halt
/// records the opcode, its opcode space and the address it was fetched from.
pub proof fn lemma_unknown_opcode_halts(ram: Seq<u8>, pc: u16, tables: Tables)
    requires
        fetch_of(ram, pc) is Some,
        tables.lookup(fetch_of(ram, pc)->0.prefixed, fetch_of(ram, pc)->0.opcode) is None,
    ensures
        step_of(ram, pc, tables).state == LoopState::Halted(
            HaltReason::UnknownOpcode {
                prefixed: ram[pc as int] == 0xCB,
                opcode: if ram[pc as int] == 0xCB {
                    ram[pc + 1]
                } else {
                    ram[pc as int]
                },
                address: pc,
            },
        ),
        run_of(ram, pc, tables).reason == (HaltReason::UnknownOpcode {
            prefixed: ram[pc as int] == 0xCB,
            opcode: if ram[pc as int] == 0xCB {
                ram[pc + 1]
            } else {
                ram[pc as int]
            },
            address: pc,
        }),
        run_of(ram, pc, tables).steps == 1,
{
}

impl CPU {
    /// Reads the opcode at the program counter without moving it.
    pub fn fetch(&self) -> (fetched: Option<Fetched>)
        ensures
            fetched == fetch_of(self.ram@, self.pc),
    {
        let first: u8 = self.ram[self.pc as usize];
        if first != PREFIX {
            Some(Fetched { prefixed: false, opcode: first, address: self.pc })
        } else if self.pc < TOP_ADDRESS {
            let second: u8 = self.ram[self.pc as usize + 1];
            Some(Fetched { prefixed: true, opcode: second, address: self.pc })
        } else {
            None
        }
    }

    /// Takes one step of the decode loop: fetches the opcode at the program
    /// counter, resolves it against the catalog and moves the program counter
    /// past the instruction. Registers and memory stay as they were.
    pub fn step(&mut self, catalog: &InstructionSet) -> (state: LoopState)
        ensures
            final(self).pc == step_of(old(self).ram@, old(self).pc, catalog@).pc,
            state == step_of(old(self).ram@, old(self).pc, catalog@).state,
            final(self).ram == old(self).ram,
            final(self).registers == old(self).registers,
            state == LoopState::Running ==> old(self).pc < final(self).pc < 0xFFFF,
    {
        let fetched = match self.fetch() {
            Some(fetched) => fetched,
            None => {
                self.pc = TOP_ADDRESS;
                return LoopState::Halted(HaltReason::PcOverflow);
            },
        };
        let len: u16 = if fetched.prefixed {
            2
        } else {
            1
        };
        let room: u16 = TOP_ADDRESS - self.pc;
        match catalog.lookup(fetched.prefixed, fetched.opcode) {
            None => {
                self.pc = if len < room {
                    self.pc + len
                } else {
                    TOP_ADDRESS
                };
                LoopState::Halted(
                    HaltReason::UnknownOpcode {
                        prefixed: fetched.prefixed,
                        opcode: fetched.opcode,
                        address: fetched.address,
                    },
                )
            },
            Some(instruction) => {
                if len >= room {
                    self.pc = TOP_ADDRESS;
                    return LoopState::Halted(HaltReason::PcOverflow);
                }
                let (_, skipped) = measure_operands(&instruction.operands, room - len);
                self.pc = self.pc + len + skipped;
                if self.pc >= TOP_ADDRESS {
                    LoopState::Halted(HaltReason::PcOverflow)
                } else {
                    LoopState::Running
                }
            },
        }
    }

    /// Runs the decode loop from the program counter until it halts.
    pub fn run(&mut self, catalog: &InstructionSet) -> (halt: Halt)
        ensures
            final(self).pc == run_of(old(self).ram@, old(self).pc, catalog@).pc,
            halt.reason == run_of(old(self).ram@, old(self).pc, catalog@).reason,
            halt.steps == run_of(old(self).ram@, old(self).pc, catalog@).steps,
            final(self).ram == old(self).ram,
            final(self).registers == old(self).registers,
    {
        let mut steps: u32 = 0;
        loop
            invariant
                self.ram == old(self).ram,
                self.registers == old(self).registers,
                old(self).pc <= self.pc,
                steps <= self.pc - old(self).pc,
                run_of(old(self).ram@, old(self).pc, catalog@) == (RunEnd {
                    steps: run_of(self.ram@, self.pc, catalog@).steps + steps as nat,
                    ..run_of(self.ram@, self.pc, catalog@)
                }),
            decreases 0xFFFF - self.pc,
        {
            let state = self.step(catalog);
            steps = steps + 1;
            match state {
                LoopState::Halted(reason) => {
                    return Halt { reason, steps };
                },
                LoopState::Running => {},
            }
        }
    }
}

} // verus!
