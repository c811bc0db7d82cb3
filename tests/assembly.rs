use cranevm::assembly::{asm_from_cb, cb_from_asm, opcode_from_string, parse_program, AsmError};
use cranevm::structs::{Instruction, Opcode};

#[test]
fn mnemonics_map_to_opcodes() {
    assert_eq!(opcode_from_string("ADD"), Some(Opcode::ADD));
    assert_eq!(opcode_from_string("HALT"), Some(Opcode::HALT));
    assert_eq!(opcode_from_string("STORE"), Some(Opcode::STORE));
    assert_eq!(opcode_from_string("JMPT"), Some(Opcode::JMPT));
    assert_eq!(opcode_from_string("JMP"), Some(Opcode::JMP));
    assert_eq!(opcode_from_string("add"), None);
    assert_eq!(opcode_from_string("FOO"), None);
    assert_eq!(opcode_from_string(""), None);
    assert_eq!(opcode_from_string("ADDX"), None);
}

#[test]
fn every_mnemonic_round_trips() {
    for b in 0u8..38 {
        let op = Opcode::from_byte(b).unwrap();
        let line = Instruction::new(op, [0, 0, 0]).stringify();
        let name = line.split(' ').next().unwrap();
        assert_eq!(opcode_from_string(name), Some(op));
    }
}

#[test]
fn parses_a_program() {
    let v = cb_from_asm("MOV 0 0 3\nHALT 0 0 7\n").unwrap();
    assert_eq!(
        v,
        vec![
            Instruction::new(Opcode::MOV, [0, 0, 3]),
            Instruction::new(Opcode::HALT, [0, 0, 7])
        ]
    );
}

#[test]
fn missing_operands_are_zero() {
    let v = cb_from_asm("HALT\nPUSH 5\nMOV 16 1").unwrap();
    assert_eq!(
        v,
        vec![
            Instruction::new(Opcode::HALT, [0, 0, 0]),
            Instruction::new(Opcode::PUSH, [5, 0, 0]),
            Instruction::new(Opcode::MOV, [16, 1, 0])
        ]
    );
}

#[test]
fn blank_lines_and_spacing_are_ignored() {
    let v = cb_from_asm("\n  NOP\t1  2 3\r\n\n   \nINC 007\n").unwrap();
    assert_eq!(
        v,
        vec![
            Instruction::new(Opcode::NOP, [1, 2, 3]),
            Instruction::new(Opcode::INC, [7, 0, 0])
        ]
    );
    assert_eq!(cb_from_asm(""), Ok(vec![]));
    let v = cb_from_asm("OUT\x0b1\x0c2").unwrap();
    assert_eq!(v, vec![Instruction::new(Opcode::OUT, [1, 2, 0])]);
}

#[test]
fn unknown_mnemonic_is_an_error() {
    assert_eq!(cb_from_asm("FOO 1"), Err(AsmError::UnknownMnemonic { line: 1 }));
    assert_eq!(cb_from_asm("NOP\n\nBAD 1\nALSO_BAD"), Err(AsmError::UnknownMnemonic { line: 3 }));
}

#[test]
fn bad_operands_are_errors() {
    assert_eq!(cb_from_asm("ADD 256"), Err(AsmError::BadOperand { line: 1 }));
    assert_eq!(cb_from_asm("ADD 1 x"), Err(AsmError::BadOperand { line: 1 }));
    assert_eq!(cb_from_asm("NOP\nADD -1"), Err(AsmError::BadOperand { line: 2 }));
    assert_eq!(cb_from_asm("ADD 99999999999999999999"), Err(AsmError::BadOperand { line: 1 }));
    assert_eq!(cb_from_asm("ADD 1 2 3 4"), Err(AsmError::TooManyOperands { line: 1 }));
    assert_eq!(
        cb_from_asm("ADD 255 255 255").unwrap(),
        vec![Instruction::new(Opcode::ADD, [255, 255, 255])]
    );
}

#[test]
fn stringify_writes_the_text_line() {
    assert_eq!(Instruction::new(Opcode::ADD, [1, 20, 255]).stringify(), "ADD 1 20 255");
    assert_eq!(Instruction::new(Opcode::HALT, [0, 0, 7]).stringify(), "HALT 0 0 7");
    assert_eq!(Instruction::new(Opcode::JMPF, [100, 9, 10]).stringify(), "JMPF 100 9 10");
}

#[test]
fn formats_a_program() {
    let text = asm_from_cb(vec![
        Instruction::new(Opcode::MOV, [0, 0, 3]),
        Instruction::new(Opcode::HALT, [0, 0, 7]),
    ]);
    assert_eq!(text, "MOV 0 0 3\nHALT 0 0 7\n");
    assert_eq!(asm_from_cb(vec![]), "");
}

#[test]
fn format_then_parse_round_trips() {
    let mut v = Vec::new();
    for b in 0u8..38 {
        let op = Opcode::from_byte(b).unwrap();
        v.push(Instruction::new(op, [b, b.wrapping_mul(7), 255 - b]));
    }
    let text = asm_from_cb(v.clone());
    assert_eq!(cb_from_asm(&text), Ok(v.clone()));
    assert_eq!(parse_program(text.as_bytes()), Ok(v));
}
