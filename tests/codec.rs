use cranevm::error::VmError;
use cranevm::structs::{decode, decode_image, Instruction, Opcode};

#[test]
fn decode_encode_round_trips_every_opcode() {
    for b in 0u8..38 {
        let op = Opcode::from_byte(b).unwrap();
        assert_eq!(op.to_byte(), b);
        for operands in [[0u8, 0, 0], [1, 2, 3], [255, 128, 7]] {
            let bytes = Instruction::new(op, operands).encode();
            assert_eq!(bytes, [b, operands[0], operands[1], operands[2]]);
            let back = decode(bytes).unwrap();
            assert_eq!(back.opcode, op);
            assert_eq!(back.operands, operands);
        }
    }
}

#[test]
fn opcode_numbering() {
    assert_eq!(Opcode::ADD.to_byte(), 0);
    assert_eq!(Opcode::STORE.to_byte(), 30);
    assert_eq!(Opcode::MOV.to_byte(), 31);
    assert_eq!(Opcode::HALT.to_byte(), 37);
}

#[test]
fn unknown_opcode_byte_is_refused() {
    assert_eq!(Opcode::from_byte(38), Err(VmError::InvalidOpcode(38)));
    assert_eq!(Opcode::from_byte(255), Err(VmError::InvalidOpcode(255)));
    assert_eq!(decode([200, 1, 2, 3]).unwrap_err(), VmError::InvalidOpcode(200));
}

#[test]
fn opcode_from_char() {
    assert_eq!(Opcode::from_char('\u{0}'), Some(Opcode::ADD));
    assert_eq!(Opcode::from_char('\u{25}'), Some(Opcode::HALT));
    assert_eq!(Opcode::from_char('z'), None);
    assert_eq!(Opcode::from_char('\u{1F600}'), None);
}

#[test]
fn decode_image_splits_records() {
    let mut bytes = Vec::new();
    bytes.extend_from_slice(&Instruction::new(Opcode::MOV, [0, 0, 3]).encode());
    bytes.extend_from_slice(&Instruction::new(Opcode::HALT, [0, 0, 7]).encode());
    assert_eq!(
        decode_image(&bytes),
        Ok(vec![
            Instruction::new(Opcode::MOV, [0, 0, 3]),
            Instruction::new(Opcode::HALT, [0, 0, 7])
        ])
    );
    assert_eq!(decode_image(&[]), Ok(vec![]));
}

#[test]
fn decode_image_refuses_a_short_record() {
    assert_eq!(
        decode_image(&[37, 0, 0, 7, 1, 2]),
        Err(VmError::SizeMismatch { expected: 4, found: 6 })
    );
    assert_eq!(decode_image(&[1]), Err(VmError::SizeMismatch { expected: 0, found: 1 }));
}

#[test]
fn decode_image_refuses_the_first_bad_opcode() {
    assert_eq!(
        decode_image(&[37, 0, 0, 7, 50, 0, 0, 0, 60, 0, 0, 0]),
        Err(VmError::InvalidOpcode(50))
    );
}
