use gb_cpu::catalog::{
    measure_operands, Field, FlagEffect, Flags, Instruction, InstructionSet, Operand,
};

fn operand(name: &str, bytes: Option<u8>) -> Operand {
    Operand { name: name.to_string(), bytes, immediate: true }
}

fn instruction(mnemonic: &str, bytes: u8, operands: Vec<Operand>) -> Instruction {
    Instruction {
        mnemonic: mnemonic.to_string(),
        bytes,
        cycles: vec![4],
        operands,
        immediate: true,
        flags: Flags {
            z: FlagEffect::Unaffected,
            n: FlagEffect::Unaffected,
            h: FlagEffect::Unaffected,
            c: FlagEffect::Unaffected,
        },
    }
}

fn entry(key: &str, instruction: Instruction) -> (String, Instruction) {
    (key.to_string(), instruction)
}

#[test]
fn flag_effect_symbols() {
    assert_eq!(FlagEffect::from_symbol("1"), FlagEffect::Raised);
    assert_eq!(FlagEffect::from_symbol("0"), FlagEffect::Cleared);
    assert_eq!(FlagEffect::from_symbol("-"), FlagEffect::Unaffected);
    assert_eq!(FlagEffect::from_symbol("Z"), FlagEffect::DataDependent);
    assert_eq!(FlagEffect::from_symbol("N"), FlagEffect::DataDependent);
    assert_eq!(FlagEffect::from_symbol("H"), FlagEffect::DataDependent);
    assert_eq!(FlagEffect::from_symbol("C"), FlagEffect::DataDependent);
    assert_eq!(FlagEffect::from_symbol(""), FlagEffect::DataDependent);
    assert_eq!(FlagEffect::from_symbol("10"), FlagEffect::DataDependent);
    assert_eq!(FlagEffect::from_symbol("--"), FlagEffect::DataDependent);
}

#[test]
fn measure_adds_up_the_inline_operands() {
    assert_eq!(measure_operands(&vec![], 100), (false, 0));
    assert_eq!(measure_operands(&vec![operand("A", None)], 100), (false, 0));
    assert_eq!(measure_operands(&vec![operand("n8", Some(1))], 100), (true, 1));
    assert_eq!(
        measure_operands(&vec![operand("BC", None), operand("n16", Some(2))], 100),
        (true, 2)
    );
    assert_eq!(
        measure_operands(
            &vec![operand("a", Some(3)), operand("b", None), operand("c", Some(4))],
            100
        ),
        (true, 7)
    );
    assert_eq!(measure_operands(&vec![operand("zero", Some(0))], 100), (true, 0));
}

#[test]
fn measure_stops_at_the_cap() {
    let operands = vec![operand("a", Some(200)), operand("b", Some(200)), operand("c", None)];
    assert_eq!(measure_operands(&operands, 1000), (true, 400));
    assert_eq!(measure_operands(&operands, 400), (true, 400));
    assert_eq!(measure_operands(&operands, 399), (true, 399));
    assert_eq!(measure_operands(&operands, 200), (true, 200));
    assert_eq!(measure_operands(&operands, 1), (true, 1));
    assert_eq!(measure_operands(&operands, 0), (true, 0));
    let many: Vec<Operand> = (0..1000).map(|_| operand("x", Some(255))).collect();
    assert_eq!(measure_operands(&many, 0xFFFF), (true, 0xFFFF));
}

#[test]
fn load_builds_both_tables() {
    let set = InstructionSet::load(
        vec![
            entry("0x00", instruction("NOP", 1, vec![])),
            entry("0x01", instruction("LD", 3, vec![operand("BC", None), operand("n16", Some(2))])),
            entry("0x3E", instruction("LD", 2, vec![operand("A", None), operand("n8", Some(1))])),
        ],
        vec![entry("0x00", instruction("RLC", 2, vec![operand("B", None)]))],
    )
    .unwrap();

    assert_eq!(set.lookup(false, 0x00).unwrap().mnemonic, "NOP");
    assert_eq!(set.lookup(false, 0x01).unwrap().bytes, 3);
    assert_eq!(set.lookup(false, 0x01).unwrap().operands.len(), 2);
    assert_eq!(set.lookup(false, 0x01).unwrap().operands[1].name, "n16");
    assert_eq!(set.lookup(false, 0x01).unwrap().operands[1].bytes, Some(2));
    assert_eq!(set.lookup(false, 0x3E).unwrap().bytes, 2);
    assert_eq!(set.lookup(true, 0x00).unwrap().mnemonic, "RLC");
    assert_eq!(set.lookup(true, 0x00).unwrap().bytes, 2);
}

#[test]
fn lookup_of_an_absent_opcode_finds_nothing() {
    let set = InstructionSet::load(
        vec![entry("0x00", instruction("NOP", 1, vec![]))],
        vec![entry("0x11", instruction("RL", 2, vec![operand("C", None)]))],
    )
    .unwrap();
    assert!(set.lookup(false, 0x00).is_some());
    assert!(set.lookup(true, 0x00).is_none());
    assert!(set.lookup(true, 0x11).is_some());
    assert!(set.lookup(false, 0x11).is_none());
    for opcode in 1..=255u8 {
        assert!(set.lookup(false, opcode).is_none());
    }
    for opcode in 0..=255u8 {
        if opcode != 0x11 {
            assert!(set.lookup(true, opcode).is_none());
        }
    }
}

#[test]
fn load_of_empty_tables_gives_an_empty_catalog() {
    let set = InstructionSet::load(vec![], vec![]).unwrap();
    for opcode in 0..=255u8 {
        assert!(set.lookup(false, opcode).is_none());
        assert!(set.lookup(true, opcode).is_none());
    }
}

#[test]
fn load_finds_every_opcode_under_its_own_key() {
    let unprefixed: Vec<(String, Instruction)> = (0..=255u8)
        .map(|b| (format!("{:#04X}", b), instruction(&format!("U{}", b), 1, vec![])))
        .collect();
    let cbprefixed: Vec<(String, Instruction)> = (0..=255u8)
        .map(|b| (format!("{:#04X}", b), instruction(&format!("P{}", b), 2, vec![])))
        .collect();
    let set = InstructionSet::load(unprefixed, cbprefixed).unwrap();
    for b in 0..=255u8 {
        assert_eq!(set.lookup(false, b).unwrap().mnemonic, format!("U{}", b));
        assert_eq!(set.lookup(true, b).unwrap().mnemonic, format!("P{}", b));
    }
}

#[test]
fn load_keeps_the_later_of_two_entries_with_one_key() {
    let set = InstructionSet::load(
        vec![
            entry("0x10", instruction("FIRST", 1, vec![])),
            entry("0x20", instruction("OTHER", 1, vec![])),
            entry("0x10", instruction("SECOND", 2, vec![operand("n8", Some(1))])),
        ],
        vec![],
    )
    .unwrap();
    assert_eq!(set.lookup(false, 0x10).unwrap().mnemonic, "SECOND");
    assert_eq!(set.lookup(false, 0x10).unwrap().bytes, 2);
    assert_eq!(set.lookup(false, 0x20).unwrap().mnemonic, "OTHER");
}

#[test]
fn load_refuses_a_key_in_another_form() {
    for key in ["0xab", "AB", "0x1", "0x100", "", "171", "0XAB"] {
        let fault = InstructionSet::load(vec![entry(key, instruction("NOP", 1, vec![]))], vec![])
            .err()
            .unwrap();
        assert_eq!(fault.field, Field::Key);
        assert_eq!(fault.key, key);
        assert!(!fault.prefixed);
    }
}

#[test]
fn load_refuses_missing_or_surplus_cycle_counts() {
    let mut none = instruction("NOP", 1, vec![]);
    none.cycles = vec![];
    let fault = InstructionSet::load(vec![entry("0x00", none)], vec![]).err().unwrap();
    assert_eq!(fault.field, Field::Cycles);
    assert_eq!(fault.key, "0x00");
    assert!(!fault.prefixed);

    let mut three = instruction("JR", 2, vec![operand("e8", Some(1))]);
    three.cycles = vec![12, 8, 4];
    let fault = InstructionSet::load(vec![], vec![entry("0x18", three)]).err().unwrap();
    assert_eq!(fault.field, Field::Cycles);
    assert_eq!(fault.key, "0x18");
    assert!(fault.prefixed);

    let mut two = instruction("JR", 2, vec![operand("e8", Some(1))]);
    two.cycles = vec![12, 8];
    assert!(InstructionSet::load(vec![entry("0x20", two)], vec![]).is_ok());
}

#[test]
fn load_refuses_a_declared_length_that_disagrees_with_the_operands() {
    let cases: Vec<(bool, Instruction, bool)> = vec![
        (false, instruction("a", 1, vec![]), true),
        (false, instruction("a", 2, vec![]), false),
        (false, instruction("a", 0, vec![]), false),
        (false, instruction("a", 1, vec![operand("B", None)]), true),
        (false, instruction("a", 2, vec![operand("n8", Some(1))]), true),
        (false, instruction("a", 1, vec![operand("n8", Some(1))]), false),
        (false, instruction("a", 3, vec![operand("n8", Some(1))]), false),
        (false, instruction("a", 3, vec![operand("n16", Some(2))]), true),
        (false, instruction("a", 4, vec![operand("x", Some(1)), operand("y", Some(2))]), true),
        (false, instruction("a", 1, vec![operand("zero", Some(0))]), true),
        (false, instruction("a", 255, vec![operand("x", Some(254))]), true),
        (false, instruction("a", 255, vec![operand("x", Some(255))]), false),
        (false, instruction("a", 0, vec![operand("x", Some(255))]), false),
        (false, instruction("a", 1, vec![operand("x", Some(128)), operand("y", Some(128))]), false),
        (true, instruction("a", 2, vec![]), true),
        (true, instruction("a", 1, vec![]), false),
        (true, instruction("a", 2, vec![operand("B", None)]), true),
        (true, instruction("a", 3, vec![operand("B", None)]), false),
        (true, instruction("a", 2, vec![operand("n8", Some(1))]), true),
        (true, instruction("a", 3, vec![operand("n8", Some(1))]), false),
    ];
    for (prefixed, instruction, accepted) in cases {
        let bytes = instruction.bytes;
        let entries = vec![entry("0x40", instruction)];
        let result = if prefixed {
            InstructionSet::load(vec![], entries)
        } else {
            InstructionSet::load(entries, vec![])
        };
        match result {
            Ok(set) => {
                assert!(accepted);
                assert_eq!(set.lookup(prefixed, 0x40).unwrap().bytes, bytes);
            }
            Err(fault) => {
                assert!(!accepted);
                assert_eq!(fault.field, Field::Bytes);
                assert_eq!(fault.key, "0x40");
                assert_eq!(fault.prefixed, prefixed);
            }
        }
    }
}

#[test]
fn load_reports_the_first_entry_at_fault() {
    let mut no_cycles = instruction("B", 1, vec![]);
    no_cycles.cycles = vec![];
    let fault = InstructionSet::load(
        vec![
            entry("0x00", instruction("A", 1, vec![])),
            entry("0x01", no_cycles),
            entry("bad", instruction("C", 1, vec![])),
        ],
        vec![entry("worse", instruction("D", 2, vec![]))],
    )
    .err()
    .unwrap();
    assert_eq!(fault.key, "0x01");
    assert_eq!(fault.field, Field::Cycles);
    assert!(!fault.prefixed);
}

#[test]
fn load_looks_at_the_key_before_the_rest_of_an_entry() {
    let mut broken = instruction("A", 9, vec![]);
    broken.cycles = vec![];
    let fault = InstructionSet::load(vec![entry("nine", broken)], vec![]).err().unwrap();
    assert_eq!(fault.field, Field::Key);

    let mut broken = instruction("A", 9, vec![]);
    broken.cycles = vec![];
    let fault = InstructionSet::load(vec![entry("0x09", broken)], vec![]).err().unwrap();
    assert_eq!(fault.field, Field::Cycles);
}

#[test]
fn load_reports_a_fault_in_the_prefixed_table_after_a_clean_unprefixed_one() {
    let fault = InstructionSet::load(
        vec![entry("0x00", instruction("NOP", 1, vec![]))],
        vec![
            entry("0x00", instruction("RLC", 2, vec![])),
            entry("0x01", instruction("RLC", 1, vec![])),
        ],
    )
    .err()
    .unwrap();
    assert!(fault.prefixed);
    assert_eq!(fault.key, "0x01");
    assert_eq!(fault.field, Field::Bytes);
}
