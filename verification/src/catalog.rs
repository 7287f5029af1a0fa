use vstd::prelude::*;
use vstd::string::*;
use std::collections::HashMap;
use crate::key::{key_of, key_value, lemma_key_value_inverts_key_of, parse_key};

verus! {

broadcast use vstd::std_specs::hash::group_hash_axioms;

/// What an instruction does to one status flag.
#[derive(Clone, Copy, Debug, PartialEq, Eq, Structural)]
pub enum FlagEffect {
    /// The flag is raised.
    Raised,
    /// The flag is cleared.
    Cleared,
    /// The flag is left as it was.
    Unaffected,
    /// The flag follows the result of the operation.
    DataDependent,
}

/// The effect that a symbol of the instruction table stands for: `1` raises
/// the flag, `0` lowers it, `-` leaves it, and any other text marks a flag
/// that follows the data.
pub open spec fn effect_of(symbol: Seq<char>) -> FlagEffect {
    if symbol == seq!['1'] {
        FlagEffect::Raised
    } else if symbol == seq!['0'] {
        FlagEffect::Cleared
    } else if symbol == seq!['-'] {
        FlagEffect::Unaffected
    } else {
        FlagEffect::DataDependent
    }
}

impl FlagEffect {
    /// Reads the symbol that the instruction table uses for a flag effect.
    pub fn from_symbol(symbol: &str) -> (effect: FlagEffect)
        ensures
            effect == effect_of(symbol@),
    {
        if symbol.unicode_len() != 1 {
            return FlagEffect::DataDependent;
        }
        let c = symbol.get_char(0);
        assert(symbol@ =~= seq![c]);
        if c == '1' {
            FlagEffect::Raised
        } else if c == '0' {
            FlagEffect::Cleared
        } else if c == '-' {
            FlagEffect::Unaffected
        } else {
            assert(seq![c][0] == c);
            FlagEffect::DataDependent
        }
    }
}

/// What an instruction does to each of the four status flags.
#[derive(Clone, Copy, Debug, PartialEq, Eq, Structural)]
pub struct Flags {
    pub z: FlagEffect,
    pub n: FlagEffect,
    pub h: FlagEffect,
    pub c: FlagEffect,
}

/// One operand of an instruction.
#[derive(Clone, Debug)]
pub struct Operand {
    pub name: String,
    /// The number of bytes the operand takes after the opcode, where it is encoded inline.
    pub bytes: Option<u8>,
    pub immediate: bool,
}

/// The encoding metadata of one instruction.
#[derive(Clone, Debug)]
pub struct Instruction {
    pub mnemonic: String,
    /// The declared length of the whole instruction in bytes.
    pub bytes: u8,
    /// One cycle count, or two where a branch taken and not taken differ.
    pub cycles: Vec<u32>,
    pub operands: Vec<Operand>,
    pub immediate: bool,
    pub flags: Flags,
}

/// The number of bytes one operand takes after the opcode.
pub open spec fn operand_len(operand: Operand) -> nat {
    match operand.bytes {
        Some(n) => n as nat,
        None => 0,
    }
}

/// The number of bytes that all operands together take after the opcode.
pub open spec fn operands_len(operands: Seq<Operand>) -> nat
    decreases operands.len(),
{
    if operands.len() == 0 {
        0
    } else {
        operands_len(operands.drop_last()) + operand_len(operands.last())
    }
}

/// Whether at least one operand is encoded inline.
pub open spec fn has_inline_operand(operands: Seq<Operand>) -> bool {
    exists|i: int| 0 <= i < operands.len() && (#[trigger] operands[i]).bytes is Some
}

impl Instruction {
    /// Whether the declared length matches the operands: one byte for the
    /// opcode plus the inline operands where there are any; otherwise one byte,
    /// or two behind the prefix.
    pub open spec fn lengths_agree(self, prefixed: bool) -> bool {
        if has_inline_operand(self.operands@) {
            self.bytes == 1 + operands_len(self.operands@)
        } else if prefixed {
            self.bytes == 2
        } else {
            self.bytes == 1
        }
    }
}

/// Without an inline operand the operands take no bytes.
pub proof fn lemma_no_inline_operand(operands: Seq<Operand>)
    requires
        !has_inline_operand(operands),
    ensures
        operands_len(operands) == 0,
    decreases operands.len(),
{
    if operands.len() > 0 {
        assert(operands.last() == operands[operands.len() - 1]);
        assert forall|i: int| 0 <= i < operands.drop_last().len() implies !((
        #[trigger] operands.drop_last()[i]).bytes is Some) by {
            assert(operands.drop_last()[i] == operands[i]);
        }
        lemma_no_inline_operand(operands.drop_last());
    }
}

/// The smaller of a natural number and a cap.
pub open spec fn capped(n: nat, cap: nat) -> nat {
    if n <= cap {
        n
    } else {
        cap
    }
}

/// Adds up the inline operand bytes, stopping at `cap`, and tells whether any
/// operand is encoded inline.
pub fn measure_operands(operands: &Vec<Operand>, cap: u16) -> (measure: (bool, u16))
    ensures
        measure.0 == has_inline_operand(operands@),
        measure.1 == capped(operands_len(operands@), cap as nat),
{
    let mut inline: bool = false;
    let mut total: u16 = 0;
    let mut i: usize = 0;
    while i < operands.len()
        invariant
            i <= operands.len(),
            inline == has_inline_operand(operands@.take(i as int)),
            total == capped(operands_len(operands@.take(i as int)), cap as nat),
        decreases operands.len() - i,
    {
        let ghost before = operands@.take(i as int);
        let ghost after = operands@.take(i + 1);
        assert(after.drop_last() =~= before);
        assert(after.last() == operands@[i as int]);
        match operands[i].bytes {
            Some(n) => {
                if n as u16 >= cap - total {
                    total = cap;
                } else {
                    total = total + n as u16;
                }
                inline = true;
                assert(after[i as int].bytes is Some);
            },
            None => {
                assert(has_inline_operand(after) ==> has_inline_operand(before)) by {
                    if has_inline_operand(after) {
                        let j = choose|j: int| 0 <= j < after.len() && (#[trigger] after[j]).bytes is Some;
                        assert(before[j] == after[j]);
                    }
                }
                assert(has_inline_operand(before) ==> has_inline_operand(after)) by {
                    if has_inline_operand(before) {
                        let j = choose|j: int| 0 <= j < before.len() && (#[trigger] before[j]).bytes is Some;
                        assert(after[j] == before[j]);
                    }
                }
            },
        }
        i = i + 1;
    }
    assert(operands@.take(operands.len() as int) =~= operands@);
    (inline, total)
}

/// The part of a table entry that breaks the rules of the instruction table.
#[derive(Clone, Copy, Debug, PartialEq, Eq, Structural)]
pub enum Field {
    /// The key is not the canonical key of any opcode.
    Key,
    /// There are not one or two cycle counts.
    Cycles,
    /// The declared length does not match the operands.
    Bytes,
}

/// An instruction table that breaks the rules, with the entry and the field at fault.
#[derive(Clone, Debug)]
pub struct MalformedCatalog {
    /// Whether the entry stands in the prefixed table.
    pub prefixed: bool,
    /// The key of the entry, as it was given.
    pub key: String,
    pub field: Field,
}

/// What is wrong with one entry of a table, if anything: the key is looked at
/// first, then the cycle counts, then the declared length.
pub open spec fn entry_fault(prefixed: bool, key: Seq<char>, instruction: Instruction) -> Option<
    Field,
> {
    if key_value(key) is None {
        Some(Field::Key)
    } else if !(1 <= instruction.cycles@.len() <= 2) {
        Some(Field::Cycles)
    } else if !instruction.lengths_agree(prefixed) {
        Some(Field::Bytes)
    } else {
        None
    }
}

/// Whether no entry of a table is at fault.
pub open spec fn faultless(prefixed: bool, entries: Seq<(String, Instruction)>) -> bool {
    forall|i: int|
        0 <= i < entries.len() ==> entry_fault(prefixed, (#[trigger] entries[i]).0@, entries[i].1)
            is None
}

/// Whether entry `i` is the first one at fault, and `field` is what is wrong with it.
pub open spec fn first_fault_at(
    prefixed: bool,
    entries: Seq<(String, Instruction)>,
    i: int,
    field: Field,
) -> bool {
    &&& 0 <= i < entries.len()
    &&& entry_fault(prefixed, entries[i].0@, entries[i].1) == Some(field)
    &&& faultless(prefixed, entries.take(i))
}

/// The mapping that a list of entries describes. An entry given later
/// replaces an earlier one with the same key.
pub open spec fn table_of(entries: Seq<(String, Instruction)>) -> Map<u8, Instruction>
    decreases entries.len(),
{
    if entries.len() == 0 {
        Map::empty()
    } else {
        let rest = table_of(entries.drop_last());
        match key_value(entries.last().0@) {
            Some(opcode) => rest.insert(opcode, entries.last().1),
            None => rest,
        }
    }
}

/// Whether entry `i` is the last one that stands under the canonical key of `opcode`.
pub open spec fn last_under_key(entries: Seq<(String, Instruction)>, opcode: u8, i: int) -> bool {
    &&& 0 <= i < entries.len()
    &&& entries[i].0@ == key_of(opcode)
    &&& forall|j: int| i < j < entries.len() ==> (#[trigger] entries[j]).0@ != key_of(opcode)
}

/// The table and the keys agree: an opcode has a descriptor exactly if some
/// entry stands under its canonical key, and the descriptor is that of the
/// last such entry.
pub proof fn lemma_table_follows_keys(entries: Seq<(String, Instruction)>, opcode: u8)
    ensures
        table_of(entries).contains_key(opcode) <==> exists|i: int|
            0 <= i < entries.len() && (#[trigger] entries[i]).0@ == key_of(opcode),
        forall|i: int|
            last_under_key(entries, opcode, i) ==> table_of(entries)[opcode] == entries[i].1,
    decreases entries.len(),
{
    if entries.len() > 0 {
        let front = entries.drop_last();
        let last = entries.len() - 1;
        lemma_table_follows_keys(front, opcode);
        lemma_key_value_inverts_key_of(entries.last().0@, opcode);
        assert(entries.last() == entries[last]);
        if table_of(front).contains_key(opcode) {
            let i = choose|i: int| 0 <= i < front.len() && (#[trigger] front[i]).0@ == key_of(opcode);
            assert(entries[i] == front[i]);
        }
        if exists|i: int| 0 <= i < entries.len() && (#[trigger] entries[i]).0@ == key_of(opcode) {
            let i = choose|i: int|
                0 <= i < entries.len() && (#[trigger] entries[i]).0@ == key_of(opcode);
            if i < last {
                assert(front[i] == entries[i]);
            }
        }
        assert forall|i: int| last_under_key(entries, opcode, i) implies table_of(entries)[opcode]
            == entries[i].1 by {
            if i < last {
                assert(front[i] == entries[i]);
                assert(entries[last].0@ != key_of(opcode));
                assert forall|j: int| i < j < front.len() implies (#[trigger] front[j]).0@
                    != key_of(opcode) by {
                    assert(front[j] == entries[j]);
                }
                assert(last_under_key(front, opcode, i));
            }
        }
    }
}

/// Whether every entry of a table, taken as part of the given opcode space,
/// has one or two cycle counts and a declared length that matches its operands.
pub open spec fn table_well_formed(prefixed: bool, table: Map<u8, Instruction>) -> bool {
    forall|opcode: u8| #[trigger]
        table.contains_key(opcode) ==> {
            &&& 1 <= table[opcode].cycles@.len() <= 2
            &&& table[opcode].lengths_agree(prefixed)
        }
}

/// The two opcode tables as mathematical maps.
pub struct Tables {
    pub unprefixed: Map<u8, Instruction>,
    pub cbprefixed: Map<u8, Instruction>,
}

impl Tables {
    /// The table of one opcode space.
    pub open spec fn table(self, prefixed: bool) -> Map<u8, Instruction> {
        if prefixed {
            self.cbprefixed
        } else {
            self.unprefixed
        }
    }

    /// The descriptor of an opcode in one opcode space, if the table has one.
    pub open spec fn lookup(self, prefixed: bool, opcode: u8) -> Option<Instruction> {
        if self.table(prefixed).contains_key(opcode) {
            Some(self.table(prefixed)[opcode])
        } else {
            None
        }
    }

    /// Whether every entry of both tables has one or two cycle counts and a
    /// declared length that matches its operands.
    pub open spec fn well_formed(self) -> bool {
        table_well_formed(false, self.unprefixed) && table_well_formed(true, self.cbprefixed)
    }
}

/// The instruction catalog: the unprefixed and the prefixed opcode table.
///
/// Every catalog is well formed; it is built once and read from then on.
pub struct InstructionSet {
    unprefixed: HashMap<u8, Instruction>,
    cbprefixed: HashMap<u8, Instruction>,
}

impl View for InstructionSet {
    type V = Tables;

    closed spec fn view(&self) -> Tables {
        Tables { unprefixed: self.unprefixed@, cbprefixed: self.cbprefixed@ }
    }
}

fn load_table(prefixed: bool, entries: Vec<(String, Instruction)>) -> (result: Result<
    HashMap<u8, Instruction>,
    MalformedCatalog,
>)
    ensures
        result is Ok <==> faultless(prefixed, entries@),
        result is Ok ==> result->Ok_0@ == table_of(entries@) && table_well_formed(
            prefixed,
            result->Ok_0@,
        ),
        result is Err ==> result->Err_0.prefixed == prefixed && exists|i: int|
            first_fault_at(prefixed, entries@, i, result->Err_0.field) && result->Err_0.key@
                == entries@[i].0@,
{
    let ghost all = entries@;
    let mut table: HashMap<u8, Instruction> = HashMap::new();
    for entry in it: entries.into_iter()
        invariant
            it.seq() == all,
            faultless(prefixed, all.take(it.index() as int)),
            table@ == table_of(all.take(it.index() as int)),
            table_well_formed(prefixed, table@),
    {
        let ghost i = it.index() as int;
        assert(all.take(i + 1).drop_last() =~= all.take(i));
        assert(all.take(i + 1).last() == all[i]);
        let (key, instruction) = entry;
        let field = match parse_key(key.as_str()) {
            None => Some(Field::Key),
            Some(opcode) => {
                let count = instruction.cycles.len();
                let (inline, total) = measure_operands(&instruction.operands, 0x100);
                let expected: u16 = if inline {
                    1 + total
                } else if prefixed {
                    2
                } else {
                    1
                };
                if count < 1 || count > 2 {
                    Some(Field::Cycles)
                } else if instruction.bytes as u16 != expected {
                    Some(Field::Bytes)
                } else {
                    table.insert(opcode, instruction);
                    None
                }
            },
        };
        match field {
            Some(field) => {
                assert(first_fault_at(prefixed, all, i, field));
                return Err(MalformedCatalog { prefixed, key, field });
            },
            None => {
                assert forall|j: int| 0 <= j < all.take(i + 1).len() implies entry_fault(
                    prefixed,
                    (#[trigger] all.take(i + 1)[j]).0@,
                    all.take(i + 1)[j].1,
                ) is None by {
                    if j < i {
                        assert(all.take(i)[j] == all.take(i + 1)[j]);
                    }
                }
            },
        }
    }
    assert(all.take(all.len() as int) =~= all);
    Ok(table)
}

impl InstructionSet {
    #[verifier::type_invariant]
    spec fn every_entry_well_formed(self) -> bool {
        self@.well_formed()
    }

    /// Builds the catalog from the entries of the two tables, each entry a key
    /// and its descriptor, in the order in which they are given.
    ///
    /// The first entry at fault, the unprefixed table before the prefixed one,
    /// is reported and no catalog is built.
    pub fn load(
        unprefixed: Vec<(String, Instruction)>,
        cbprefixed: Vec<(String, Instruction)>,
    ) -> (result: Result<InstructionSet, MalformedCatalog>)
        ensures
            result is Ok <==> faultless(false, unprefixed@) && faultless(true, cbprefixed@),
            result is Ok ==> result->Ok_0@ == (Tables {
                unprefixed: table_of(unprefixed@),
                cbprefixed: table_of(cbprefixed@),
            }) && result->Ok_0@.well_formed(),
            result is Err && !faultless(false, unprefixed@) ==> !result->Err_0.prefixed
                && exists|i: int|
                first_fault_at(false, unprefixed@, i, result->Err_0.field) && result->Err_0.key@
                    == unprefixed@[i].0@,
            result is Err && faultless(false, unprefixed@) ==> result->Err_0.prefixed
                && exists|i: int|
                first_fault_at(true, cbprefixed@, i, result->Err_0.field) && result->Err_0.key@
                    == cbprefixed@[i].0@,
    {
        let first = match load_table(false, unprefixed) {
            Ok(table) => table,
            Err(fault) => {
                return Err(fault);
            },
        };
        let second = match load_table(true, cbprefixed) {
            Ok(table) => table,
            Err(fault) => {
                return Err(fault);
            },
        };
        let set = InstructionSet { unprefixed: first, cbprefixed: second };
        Ok(set)
    }

    /// Looks an opcode up in one of the two opcode spaces. An opcode without
    /// an entry gives `None`.
    pub fn lookup(&self, prefixed: bool, opcode: u8) -> (found: Option<&Instruction>)
        ensures
            match found {
                Some(instruction) => self@.lookup(prefixed, opcode) == Some(*instruction),
                None => self@.lookup(prefixed, opcode) is None,
            },
            self@.well_formed(),
    {
        proof {
            use_type_invariant(self);
        }
        if prefixed {
            self.cbprefixed.get(&opcode)
        } else {
            self.unprefixed.get(&opcode)
        }
    }
}

} // verus!
