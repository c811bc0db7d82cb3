use vstd::prelude::*;

use crate::error::VmError;

verus! {

/// The instruction set. An opcode is stored as one byte: its position in
/// this list, counted from zero.
#[derive(Debug, Clone, Copy, PartialEq, Eq, Structural)]
pub enum Opcode {
    /// Addition.
    ADD,
    /// Subtraction.
    SUB,
    /// Multiplication.
    MUL,
    /// Division.
    DIV,
    /// Remainder.
    MOD,
    /// Increment.
    INC,
    /// Decrement.
    DEC,
    /// Bitwise AND.
    AND,
    /// Bitwise OR.
    OR,
    /// Bitwise XOR.
    XOR,
    /// Bitwise NOT.
    NOT,
    /// Shift left.
    SHL,
    /// Shift right.
    SHR,
    /// Compare equal.
    EQ,
    /// Compare not equal.
    NEQ,
    /// Compare less than.
    LT,
    /// Compare greater than.
    GT,
    /// Compare less than or equal.
    LTE,
    /// Compare greater than or equal.
    GTE,
    /// Push a register.
    PUSH,
    /// Pop into a register.
    POP,
    /// Duplicate the top of the stack.
    DUP,
    /// Swap the two top bytes of the stack.
    SWAP,
    /// Unconditional jump.
    JMP,
    /// Jump if the flag is set.
    JMPT,
    /// Jump if the flag is clear.
    JMPF,
    /// Jump if the flag is zero.
    JZ,
    /// Call a subroutine.
    CALL,
    /// Return from a subroutine.
    RET,
    /// Load a register from memory.
    LOAD,
    /// Store a register to memory.
    STORE,
    /// Move an immediate into a register.
    MOV,
    /// Read a byte of input.
    IN,
    /// Write a byte of output.
    OUT,
    /// Label marker, no effect at run time.
    LAB,
    /// Host call.
    SYS,
    /// No operation.
    NOP,
    /// Stop the machine.
    HALT,
}

/// The byte that encodes `op`.
pub open spec fn opcode_byte(op: Opcode) -> u8 {
    match op {
        Opcode::ADD => 0u8,
        Opcode::SUB => 1u8,
        Opcode::MUL => 2u8,
        Opcode::DIV => 3u8,
        Opcode::MOD => 4u8,
        Opcode::INC => 5u8,
        Opcode::DEC => 6u8,
        Opcode::AND => 7u8,
        Opcode::OR => 8u8,
        Opcode::XOR => 9u8,
        Opcode::NOT => 10u8,
        Opcode::SHL => 11u8,
        Opcode::SHR => 12u8,
        Opcode::EQ => 13u8,
        Opcode::NEQ => 14u8,
        Opcode::LT => 15u8,
        Opcode::GT => 16u8,
        Opcode::LTE => 17u8,
        Opcode::GTE => 18u8,
        Opcode::PUSH => 19u8,
        Opcode::POP => 20u8,
        Opcode::DUP => 21u8,
        Opcode::SWAP => 22u8,
        Opcode::JMP => 23u8,
        Opcode::JMPT => 24u8,
        Opcode::JMPF => 25u8,
        Opcode::JZ => 26u8,
        Opcode::CALL => 27u8,
        Opcode::RET => 28u8,
        Opcode::LOAD => 29u8,
        Opcode::STORE => 30u8,
        Opcode::MOV => 31u8,
        Opcode::IN => 32u8,
        Opcode::OUT => 33u8,
        Opcode::LAB => 34u8,
        Opcode::SYS => 35u8,
        Opcode::NOP => 36u8,
        Opcode::HALT => 37u8,
    }
}

/// The opcode that `b` encodes, if any.
pub open spec fn byte_opcode(b: u8) -> Option<Opcode> {
    if b == 0 {
        Some(Opcode::ADD)
    } else if b == 1 {
        Some(Opcode::SUB)
    } else if b == 2 {
        Some(Opcode::MUL)
    } else if b == 3 {
        Some(Opcode::DIV)
    } else if b == 4 {
        Some(Opcode::MOD)
    } else if b == 5 {
        Some(Opcode::INC)
    } else if b == 6 {
        Some(Opcode::DEC)
    } else if b == 7 {
        Some(Opcode::AND)
    } else if b == 8 {
        Some(Opcode::OR)
    } else if b == 9 {
        Some(Opcode::XOR)
    } else if b == 10 {
        Some(Opcode::NOT)
    } else if b == 11 {
        Some(Opcode::SHL)
    } else if b == 12 {
        Some(Opcode::SHR)
    } else if b == 13 {
        Some(Opcode::EQ)
    } else if b == 14 {
        Some(Opcode::NEQ)
    } else if b == 15 {
        Some(Opcode::LT)
    } else if b == 16 {
        Some(Opcode::GT)
    } else if b == 17 {
        Some(Opcode::LTE)
    } else if b == 18 {
        Some(Opcode::GTE)
    } else if b == 19 {
        Some(Opcode::PUSH)
    } else if b == 20 {
        Some(Opcode::POP)
    } else if b == 21 {
        Some(Opcode::DUP)
    } else if b == 22 {
        Some(Opcode::SWAP)
    } else if b == 23 {
        Some(Opcode::JMP)
    } else if b == 24 {
        Some(Opcode::JMPT)
    } else if b == 25 {
        Some(Opcode::JMPF)
    } else if b == 26 {
        Some(Opcode::JZ)
    } else if b == 27 {
        Some(Opcode::CALL)
    } else if b == 28 {
        Some(Opcode::RET)
    } else if b == 29 {
        Some(Opcode::LOAD)
    } else if b == 30 {
        Some(Opcode::STORE)
    } else if b == 31 {
        Some(Opcode::MOV)
    } else if b == 32 {
        Some(Opcode::IN)
    } else if b == 33 {
        Some(Opcode::OUT)
    } else if b == 34 {
        Some(Opcode::LAB)
    } else if b == 35 {
        Some(Opcode::SYS)
    } else if b == 36 {
        Some(Opcode::NOP)
    } else if b == 37 {
        Some(Opcode::HALT)
    } else {
        None
    }
}

impl Opcode {
    /// The byte that encodes this opcode.
    pub fn to_byte(self) -> (r: u8)
        ensures
            r == opcode_byte(self),
    {
        match self {
            Opcode::ADD => 0,
            Opcode::SUB => 1,
            Opcode::MUL => 2,
            Opcode::DIV => 3,
            Opcode::MOD => 4,
            Opcode::INC => 5,
            Opcode::DEC => 6,
            Opcode::AND => 7,
            Opcode::OR => 8,
            Opcode::XOR => 9,
            Opcode::NOT => 10,
            Opcode::SHL => 11,
            Opcode::SHR => 12,
            Opcode::EQ => 13,
            Opcode::NEQ => 14,
            Opcode::LT => 15,
            Opcode::GT => 16,
            Opcode::LTE => 17,
            Opcode::GTE => 18,
            Opcode::PUSH => 19,
            Opcode::POP => 20,
            Opcode::DUP => 21,
            Opcode::SWAP => 22,
            Opcode::JMP => 23,
            Opcode::JMPT => 24,
            Opcode::JMPF => 25,
            Opcode::JZ => 26,
            Opcode::CALL => 27,
            Opcode::RET => 28,
            Opcode::LOAD => 29,
            Opcode::STORE => 30,
            Opcode::MOV => 31,
            Opcode::IN => 32,
            Opcode::OUT => 33,
            Opcode::LAB => 34,
            Opcode::SYS => 35,
            Opcode::NOP => 36,
            Opcode::HALT => 37,
        }
    }

    /// The opcode that `b` encodes; a byte that encodes none is refused.
    pub fn from_byte(b: u8) -> (r: Result<Opcode, VmError>)
        ensures
            byte_opcode(b) is Some ==> r == Ok::<Opcode, VmError>(byte_opcode(b)->Some_0),
            byte_opcode(b) is None ==> r == Err::<Opcode, VmError>(VmError::InvalidOpcode(b)),
    {
        match b {
            0 => Ok(Opcode::ADD),
            1 => Ok(Opcode::SUB),
            2 => Ok(Opcode::MUL),
            3 => Ok(Opcode::DIV),
            4 => Ok(Opcode::MOD),
            5 => Ok(Opcode::INC),
            6 => Ok(Opcode::DEC),
            7 => Ok(Opcode::AND),
            8 => Ok(Opcode::OR),
            9 => Ok(Opcode::XOR),
            10 => Ok(Opcode::NOT),
            11 => Ok(Opcode::SHL),
            12 => Ok(Opcode::SHR),
            13 => Ok(Opcode::EQ),
            14 => Ok(Opcode::NEQ),
            15 => Ok(Opcode::LT),
            16 => Ok(Opcode::GT),
            17 => Ok(Opcode::LTE),
            18 => Ok(Opcode::GTE),
            19 => Ok(Opcode::PUSH),
            20 => Ok(Opcode::POP),
            21 => Ok(Opcode::DUP),
            22 => Ok(Opcode::SWAP),
            23 => Ok(Opcode::JMP),
            24 => Ok(Opcode::JMPT),
            25 => Ok(Opcode::JMPF),
            26 => Ok(Opcode::JZ),
            27 => Ok(Opcode::CALL),
            28 => Ok(Opcode::RET),
            29 => Ok(Opcode::LOAD),
            30 => Ok(Opcode::STORE),
            31 => Ok(Opcode::MOV),
            32 => Ok(Opcode::IN),
            33 => Ok(Opcode::OUT),
            34 => Ok(Opcode::LAB),
            35 => Ok(Opcode::SYS),
            36 => Ok(Opcode::NOP),
            37 => Ok(Opcode::HALT),
            _ => Err(VmError::InvalidOpcode(b)),
        }
    }

    /// The opcode that the character's code encodes, for a code below 256.
    pub fn from_char(c: char) -> (r: Option<Opcode>)
        ensures
            (c as u32) < 256 ==> r == byte_opcode(c as u32 as u8),
            (c as u32) >= 256 ==> r is None,
    {
        let code = c as u32;
        if code < 256 {
            match Opcode::from_byte(code as u8) {
                Ok(op) => Some(op),
                Err(_) => None,
            }
        } else {
            None
        }
    }
}

/// Each opcode has a distinct byte, and that byte decodes to it.
pub proof fn lemma_opcode_byte_round_trip(op: Opcode)
    ensures
        byte_opcode(opcode_byte(op)) == Some(op),
{
}

/// Every byte that decodes to an opcode is that opcode's byte.
pub proof fn lemma_byte_opcode_round_trip(b: u8)
    ensures
        byte_opcode(b) is Some ==> opcode_byte(byte_opcode(b)->Some_0) == b,
{
}

/// One instruction: an opcode and its three operand bytes.
#[derive(Debug, Clone, Copy, PartialEq, Eq)]
pub struct Instruction {
    pub opcode: Opcode,
    pub operands: [u8; 3],
}

/// The four-byte record of an opcode and its operands.
pub open spec fn encode_spec(op: Opcode, operands: Seq<u8>) -> Seq<u8> {
    seq![opcode_byte(op)] + operands
}

/// The opcode and operands of a four-byte record, if its first byte is an opcode.
pub open spec fn decode_spec(bytes: Seq<u8>) -> Option<(Opcode, Seq<u8>)> {
    match byte_opcode(bytes[0]) {
        Some(op) => Some((op, bytes.subrange(1, 4))),
        None => None,
    }
}

impl Instruction {
    pub fn new(opcode: Opcode, operands: [u8; 3]) -> (r: Instruction)
        ensures
            r.opcode == opcode,
            r.operands == operands,
    {
        Instruction { opcode, operands }
    }

    /// The four-byte record of this instruction.
    pub fn encode(&self) -> (r: [u8; 4])
        ensures
            r@ == encode_spec(self.opcode, self.operands@),
    {
        let r = [self.opcode.to_byte(), self.operands[0], self.operands[1], self.operands[2]];
        assert(r@ =~= encode_spec(self.opcode, self.operands@));
        r
    }
}

/// Splits a four-byte record into opcode and operands; a first byte that
/// encodes no opcode is refused.
pub fn decode(bytes: [u8; 4]) -> (r: Result<Instruction, VmError>)
    ensures
        decode_spec(bytes@) is None ==> r == Err::<Instruction, VmError>(
            VmError::InvalidOpcode(bytes[0]),
        ),
        decode_spec(bytes@) is Some <==> r is Ok,
        r is Ok ==> decode_spec(bytes@) == Some(
            (r->Ok_0.opcode, r->Ok_0.operands@),
        ),
{
    let opcode = Opcode::from_byte(bytes[0])?;
    let operands = [bytes[1], bytes[2], bytes[3]];
    assert(operands@ =~= bytes@.subrange(1, 4));
    Ok(Instruction::new(opcode, operands))
}

/// Decoding an encoded instruction gives back its opcode and operands.
pub proof fn lemma_decode_encode(op: Opcode, operands: Seq<u8>)
    requires
        operands.len() == 3,
    ensures
        decode_spec(encode_spec(op, operands)) == Some((op, operands)),
{
    assert(encode_spec(op, operands).subrange(1, 4) =~= operands);
}

/// Encoding a record that decodes gives back the same four bytes.
pub proof fn lemma_encode_decode(bytes: Seq<u8>)
    requires
        bytes.len() == 4,
        decode_spec(bytes) is Some,
    ensures
        encode_spec(decode_spec(bytes)->Some_0.0, decode_spec(bytes)->Some_0.1) == bytes,
{
    lemma_byte_opcode_round_trip(bytes[0]);
    assert(encode_spec(decode_spec(bytes)->Some_0.0, decode_spec(bytes)->Some_0.1) =~= bytes);
}

/// An instruction as an opcode and a sequence of operands.
pub open spec fn instr_view(i: Instruction) -> (Opcode, Seq<u8>) {
    (i.opcode, i.operands@)
}

/// The first `k` four-byte records of `bytes`, or the error of the first one
/// that does not decode.
pub open spec fn decode_records(bytes: Seq<u8>, k: nat) -> Result<Seq<(Opcode, Seq<u8>)>, VmError>
    decreases k,
{
    if k == 0 {
        Ok(seq![])
    } else {
        match decode_records(bytes, (k - 1) as nat) {
            Err(e) => Err(e),
            Ok(v) => match decode_spec(bytes.subrange(4 * (k - 1), 4 * k as int)) {
                None => Err(VmError::InvalidOpcode(bytes[4 * (k - 1)])),
                Some(p) => Ok(v.push(p)),
            },
        }
    }
}

/// The instructions of a binary image: whole four-byte records, none short.
pub open spec fn decode_image_spec(bytes: Seq<u8>) -> Result<Seq<(Opcode, Seq<u8>)>, VmError> {
    if bytes.len() % 4 != 0 {
        Err(
            VmError::SizeMismatch {
                expected: (bytes.len() - bytes.len() % 4) as usize,
                found: bytes.len() as usize,
            },
        )
    } else {
        decode_records(bytes, bytes.len() / 4)
    }
}

/// Once a record fails to decode, every longer run of records fails with
/// the same error.
proof fn lemma_records_error_persists(bytes: Seq<u8>, k: nat, n: nat)
    requires
        k <= n,
        decode_records(bytes, k) is Err,
    ensures
        decode_records(bytes, n) == decode_records(bytes, k),
    decreases n - k,
{
    if n > k {
        lemma_records_error_persists(bytes, k, (n - 1) as nat);
    }
}

/// Splits a binary image into instructions. An image whose length is not a
/// multiple of four is refused, and so is the first record whose first byte
/// encodes no opcode.
pub fn decode_image(bytes: &[u8]) -> (r: Result<Vec<Instruction>, VmError>)
    ensures
        match decode_image_spec(bytes@) {
            Ok(v) => r is Ok && r->Ok_0@.map_values(|i: Instruction| instr_view(i)) == v,
            Err(e) => r == Err::<Vec<Instruction>, VmError>(e),
        },
{
    if bytes.len() % 4 != 0 {
        return Err(
            VmError::SizeMismatch {
                expected: bytes.len() - bytes.len() % 4,
                found: bytes.len(),
            },
        );
    }
    let len = bytes.len();
    let n = len / 4;
    let mut out: Vec<Instruction> = Vec::new();
    let mut i: usize = 0;
    proof {
        assert(out@.map_values(|x: Instruction| instr_view(x)) =~= Seq::<(Opcode, Seq<u8>)>::empty());
    }
    while i < n
        invariant
            len == bytes@.len(),
            n == len / 4,
            bytes@.len() % 4 == 0,
            i <= n,
            decode_records(bytes@, i as nat) == Ok::<Seq<(Opcode, Seq<u8>)>, VmError>(
                out@.map_values(|x: Instruction| instr_view(x)),
            ),
        decreases n - i,
    {
        assert(4 * i + 4 <= len) by (nonlinear_arith)
            requires
                i < n,
                n == len / 4,
        ;
        let at = 4 * i;
        let record = [bytes[at], bytes[at + 1], bytes[at + 2], bytes[at + 3]];
        assert(record@ =~= bytes@.subrange(4 * i, 4 * (i + 1)));
        let ghost prev = out@;
        match decode(record) {
            Ok(ins) => {
                out.push(ins);
                assert(out@.map_values(|x: Instruction| instr_view(x)) =~= prev.map_values(
                    |x: Instruction| instr_view(x),
                ).push(instr_view(ins)));
            },
            Err(e) => {
                proof {
                    lemma_records_error_persists(bytes@, (i + 1) as nat, n as nat);
                }
                return Err(e);
            },
        }
        i = i + 1;
    }
    Ok(out)
}

} // verus!
