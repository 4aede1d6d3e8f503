//! Tests of the assembler core: symbol table, address resolution, and
//! compute-instruction encoding.

use jcc::assembler::parse;
use jcc::assembler::Instruction;
use jcc::assembler::Kind;
use jcc::assembler::Label;
use jcc::assembler::SymbolsTable;
use jcc::assembler::A;
use jcc::assembler::D;

#[test]
fn predefined_symbols_are_present() {
    let table = SymbolsTable::new();
    assert_eq!(*table.get("SP").unwrap(), 0);
    assert_eq!(*table.get("LCL").unwrap(), 1);
    assert_eq!(*table.get("ARG").unwrap(), 2);
    assert_eq!(*table.get("THIS").unwrap(), 3);
    assert_eq!(*table.get("THAT").unwrap(), 4);
    assert_eq!(*table.get("R0").unwrap(), 0);
    assert_eq!(*table.get("R15").unwrap(), 15);
    assert_eq!(*table.get("SCREEN").unwrap(), 16384);
    assert_eq!(*table.get("KBD").unwrap(), 24576);
    assert!(table.contains_key("R7"));
    assert!(!table.contains_key("LOOP"));
}

#[test]
fn labels_and_variables_can_be_bound() {
    let mut table = SymbolsTable::new();
    table.insert_label("LOOP".to_string(), 42);
    assert_eq!(*table.get("LOOP").unwrap(), 42);
    table.insert_variable("counter".to_string());
    assert_eq!(*table.get("counter").unwrap(), 16);
    table.insert_variable("sum".to_string());
    assert_eq!(*table.get("sum").unwrap(), 17);
}

#[test]
fn numeric_address_resolves_to_itself() {
    let mut table = SymbolsTable::new();
    assert_eq!(A::from("@123").resolve(&mut table), 123);
    assert_eq!(A::from("@0").resolve(&mut table), 0);
    assert_eq!(A::from("@32767").resolve(&mut table), 32767);
}

#[test]
fn symbolic_address_resolves_through_the_table() {
    let mut table = SymbolsTable::new();
    table.insert_label("END".to_string(), 99);
    assert_eq!(A::from("@END").resolve(&mut table), 99);
    assert_eq!(A::from("@SP").resolve(&mut table), 0);
}

#[test]
fn fresh_symbols_are_allocated_sequentially_and_remembered() {
    let mut table = SymbolsTable::new();
    assert_eq!(A::from("@x").resolve(&mut table), 16);
    assert_eq!(A::from("@y").resolve(&mut table), 17);
    assert_eq!(A::from("@x").resolve(&mut table), 16);
    assert_eq!(A::from("@z").resolve(&mut table), 18);
}

#[test]
fn label_text_sits_between_the_parentheses() {
    assert_eq!(Label::from("(LOOP)").get_label(), "LOOP");
    assert_eq!(Label::from("(a$b:c.d)").get_label(), "a$b:c.d");
}

#[test]
fn compute_instruction_encodes_all_three_fields() {
    // D=M+1;JGT
    let expected: u16 = 0b1110_0000_0000_0000 | (0b111_0111 << 6) | (0b010 << 3) | 0b001;
    assert_eq!(D::from("D=M+1;JGT").resolve(), expected);
}

#[test]
fn compute_instruction_without_dest_or_jump() {
    let expected: u16 = 0b1110_0000_0000_0000 | (0b000_0010 << 6);
    assert_eq!(D::from("D+A").resolve(), expected);
    let expected: u16 = 0b1110_0000_0000_0000 | (0b010_1010 << 6) | 0b111;
    assert_eq!(D::from("0;JMP").resolve(), expected);
}

#[test]
fn compute_instruction_dest_combinations() {
    let expected: u16 = 0b1110_0000_0000_0000 | (0b011_0000 << 6) | (0b111 << 3);
    assert_eq!(D::from("AMD=A").resolve(), expected);
    let expected: u16 = 0b1110_0000_0000_0000 | (0b000_1100 << 6) | (0b001 << 3);
    assert_eq!(D::from("M=D").resolve(), expected);
}

#[test]
fn compute_instruction_fields_may_carry_spaces() {
    let a = D::from("M = D+1 ; JLE").resolve();
    let b = D::from("M=D+1;JLE").resolve();
    assert_eq!(a, b);
}

#[test]
fn instructions_can_be_told_apart() {
    let table = &mut SymbolsTable::new();
    let ins = Instruction::A(A::from("@7"));
    match ins {
        Instruction::A(a) => assert_eq!(a.resolve(table), 7),
        Instruction::D(_) => panic!("expected an address instruction"),
    }
    let ins = Instruction::D(D::from("D=A"));
    match ins {
        Instruction::A(_) => panic!("expected a compute instruction"),
        Instruction::D(d) => {
            let expected: u16 = 0b1110_0000_0000_0000 | (0b011_0000 << 6) | (0b010 << 3);
            assert_eq!(d.resolve(), expected);
        }
    }
}

#[test]
fn numeral_parsing_accepts_a_leading_plus_and_rejects_junk() {
    assert_eq!(jcc::assembler::parse_u16("+5"), Some(5));
    assert_eq!(jcc::assembler::parse_u16("65535"), Some(65535));
    assert_eq!(jcc::assembler::parse_u16("65536"), None);
    assert_eq!(jcc::assembler::parse_u16("12a"), None);
    assert_eq!(jcc::assembler::parse_u16(""), None);
}

#[test]
fn lines_are_classified_and_comments_stripped() {
    assert!(parse("").is_none());
    assert!(parse("   // just a comment").is_none());
    assert!(matches!(parse("@42"), Some(Kind::Instruction(Instruction::A(_)))));
    assert!(matches!(parse("  (LOOP)  // jump here"), Some(Kind::Label(_))));
    assert!(matches!(parse("D=M"), Some(Kind::Instruction(Instruction::D(_)))));
    match parse("  @sum // tally") {
        Some(Kind::Instruction(Instruction::A(a))) => {
            let mut table = SymbolsTable::new();
            assert_eq!(a.resolve(&mut table), 16);
        }
        _ => panic!("expected an address instruction"),
    }
}

#[test]
fn two_pass_assembly_of_a_small_program() {
    let source = "// add 2 and 3 into RAM[0]
@2
D=A
@3
D=D+A
@0
M=D
(END)
@END
0;JMP
";
    let instructions: Vec<Kind> = source.lines().filter_map(parse).collect();

    // first pass: record label addresses
    let mut table = SymbolsTable::new();
    let mut line_num: u16 = 0;
    for kind in &instructions {
        match kind {
            Kind::Instruction(_) => line_num += 1,
            Kind::Label(name) => table.insert_label(name.get_label().to_string(), line_num),
        }
    }

    // second pass: resolve
    let mut binary: Vec<u16> = Vec::new();
    for kind in &instructions {
        match kind {
            Kind::Instruction(Instruction::A(a)) => binary.push(a.resolve(&mut table)),
            Kind::Instruction(Instruction::D(d)) => binary.push(d.resolve()),
            Kind::Label(_) => {}
        }
    }

    let ec = |c: u16, d: u16, j: u16| 0b1110_0000_0000_0000 | (c << 6) | (d << 3) | j;
    assert_eq!(
        binary,
        vec![
            2,
            ec(0b011_0000, 0b010, 0), // D=A
            3,
            ec(0b000_0010, 0b010, 0), // D=D+A
            0,
            ec(0b000_1100, 0b001, 0), // M=D
            6,                        // @END resolves to the label's address
            ec(0b010_1010, 0, 0b111), // 0;JMP
        ]
    );
}
