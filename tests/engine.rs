use cranevm::engine::{Engine, Fault, State};
use cranevm::error::VmError;
use cranevm::memory::{Block, FLAG, PC, PROGRAM_SIZE, PROGRAM_START, STACK_END};
use cranevm::structs::{Instruction, Opcode};

fn program(instrs: &[(Opcode, [u8; 3])]) -> Vec<u8> {
    let mut bytes = Vec::new();
    for (op, operands) in instrs {
        bytes.extend_from_slice(&Instruction::new(*op, *operands).encode());
    }
    bytes
}

fn engine_with(instrs: &[(Opcode, [u8; 3])]) -> Engine {
    let mut e = Engine::new("test.cb");
    e.load_program(&program(instrs)).unwrap();
    e
}

/// Stores a big-endian word at `addr`.
fn poke_word(e: &mut Engine, addr: usize, v: u16) {
    e.memory
        .write_block(Block::new(addr, 2), &[(v >> 8) as u8, v as u8])
        .unwrap();
}

const OPERAND: usize = 0x3000;

#[test]
fn example_program_halts_with_status_seven() {
    let mut e = engine_with(&[(Opcode::MOV, [0, 0x00, 0x03]), (Opcode::HALT, [0, 0, 7])]);
    assert_eq!(e.state, State::Loaded);
    assert_eq!(e.run(), State::Halted(7));
    assert_eq!(e.read_reg(0), Ok(3));
    assert_eq!(e.pc, 4);
}

#[test]
fn add_wraps_at_sixteen_bits() {
    let mut e = engine_with(&[
        (Opcode::MOV, [16, 0xFF, 0xFF]),
        (Opcode::ADD, [16, 0x30, 0x00]),
        (Opcode::HALT, [0, 0, 0]),
    ]);
    poke_word(&mut e, OPERAND, 1);
    assert_eq!(e.run(), State::Halted(0));
    assert_eq!(e.read_reg(16), Ok(0x0000));
}

#[test]
fn sub_wraps_at_sixteen_bits() {
    let mut e = engine_with(&[
        (Opcode::MOV, [16, 0x00, 0x00]),
        (Opcode::SUB, [16, 0x30, 0x00]),
        (Opcode::HALT, [0, 0, 0]),
    ]);
    poke_word(&mut e, OPERAND, 1);
    assert_eq!(e.run(), State::Halted(0));
    assert_eq!(e.read_reg(16), Ok(0xFFFF));
}

#[test]
fn mul_wraps_at_sixteen_bits() {
    let mut e = engine_with(&[
        (Opcode::MOV, [17, 0x01, 0x01]),
        (Opcode::MUL, [17, 0x30, 0x00]),
        (Opcode::HALT, [0, 0, 0]),
    ]);
    poke_word(&mut e, OPERAND, 0x0101);
    e.run();
    // 0x0101 * 0x0101 = 0x10201
    assert_eq!(e.read_reg(17), Ok(0x0201));
}

#[test]
fn narrow_register_keeps_low_byte() {
    let mut e = engine_with(&[
        (Opcode::MOV, [3, 0x00, 0xFF]),
        (Opcode::ADD, [3, 0x30, 0x00]),
        (Opcode::HALT, [0, 0, 0]),
    ]);
    poke_word(&mut e, OPERAND, 2);
    e.run();
    assert_eq!(e.read_reg(3), Ok(1));
    // the neighbouring register is untouched
    assert_eq!(e.read_reg(4), Ok(0));
}

#[test]
fn mov_sets_wide_register_to_immediate() {
    let mut e = engine_with(&[(Opcode::MOV, [20, 0x12, 0x34]), (Opcode::HALT, [0, 0, 0])]);
    e.run();
    assert_eq!(e.read_reg(20), Ok(0x1234));
    assert_eq!(e.memory.memory[24], 0x12);
    assert_eq!(e.memory.memory[25], 0x34);
}

#[test]
fn divide_by_zero_faults() {
    let mut e = engine_with(&[(Opcode::MOV, [16, 0, 9]), (Opcode::DIV, [16, 0x30, 0x00])]);
    let state = e.run();
    assert_eq!(state, State::Faulted(Fault { error: VmError::DivideByZero, pc: 4 }));
    assert_eq!(e.read_reg(16), Ok(9));
    assert_eq!(e.pc, 4);
}

#[test]
fn modulo_by_zero_faults() {
    let mut e = engine_with(&[(Opcode::MOD, [0, 0x30, 0x00])]);
    assert_eq!(e.run(), State::Faulted(Fault { error: VmError::DivideByZero, pc: 0 }));
}

#[test]
fn div_and_mod() {
    let mut e = engine_with(&[
        (Opcode::MOV, [16, 0, 17]),
        (Opcode::MOV, [17, 0, 17]),
        (Opcode::DIV, [16, 0x30, 0x00]),
        (Opcode::MOD, [17, 0x30, 0x00]),
        (Opcode::HALT, [0, 0, 0]),
    ]);
    poke_word(&mut e, OPERAND, 5);
    e.run();
    assert_eq!(e.read_reg(16), Ok(3));
    assert_eq!(e.read_reg(17), Ok(2));
}

#[test]
fn inc_dec_not() {
    let mut e = engine_with(&[
        (Opcode::MOV, [16, 0xFF, 0xFF]),
        (Opcode::INC, [16, 0, 0]),
        (Opcode::DEC, [17, 0, 0]),
        (Opcode::MOV, [2, 0, 0x0F]),
        (Opcode::NOT, [2, 0, 0]),
        (Opcode::HALT, [0, 0, 0]),
    ]);
    e.run();
    assert_eq!(e.read_reg(16), Ok(0));
    assert_eq!(e.read_reg(17), Ok(0xFFFF));
    assert_eq!(e.read_reg(2), Ok(0xF0));
}

#[test]
fn bitwise_and_shifts() {
    let mut e = engine_with(&[
        (Opcode::MOV, [16, 0x0F, 0xF0]),
        (Opcode::MOV, [17, 0x0F, 0xF0]),
        (Opcode::MOV, [18, 0x0F, 0xF0]),
        (Opcode::AND, [16, 0x30, 0x00]),
        (Opcode::OR, [17, 0x30, 0x00]),
        (Opcode::XOR, [18, 0x30, 0x00]),
        (Opcode::MOV, [19, 0x00, 0x01]),
        (Opcode::SHL, [19, 0x30, 0x02]),
        (Opcode::MOV, [20, 0x80, 0x00]),
        (Opcode::SHR, [20, 0x30, 0x02]),
        (Opcode::HALT, [0, 0, 0]),
    ]);
    poke_word(&mut e, OPERAND, 0x00FF);
    // shift count 0x0013: 19 masked to a 16-bit register is 3
    poke_word(&mut e, OPERAND + 2, 0x0013);
    e.run();
    assert_eq!(e.read_reg(16), Ok(0x00F0));
    assert_eq!(e.read_reg(17), Ok(0x0FFF));
    assert_eq!(e.read_reg(18), Ok(0x0F0F));
    assert_eq!(e.read_reg(19), Ok(0x0008));
    assert_eq!(e.read_reg(20), Ok(0x1000));
}

#[test]
fn narrow_shift_count_is_masked_to_eight_bits() {
    let mut e = engine_with(&[
        (Opcode::MOV, [1, 0, 1]),
        (Opcode::SHL, [1, 0x30, 0x00]),
        (Opcode::HALT, [0, 0, 0]),
    ]);
    poke_word(&mut e, OPERAND, 9);
    e.run();
    assert_eq!(e.read_reg(1), Ok(2));
}

#[test]
fn comparisons_set_the_flag() {
    let cases = [
        (Opcode::EQ, 5u16, 5u16, 1u8),
        (Opcode::EQ, 5, 6, 0),
        (Opcode::NEQ, 5, 6, 1),
        (Opcode::LT, 5, 6, 1),
        (Opcode::LT, 6, 6, 0),
        (Opcode::GT, 7, 6, 1),
        (Opcode::LTE, 6, 6, 1),
        (Opcode::GTE, 5, 6, 0),
    ];
    for (op, a, b, flag) in cases {
        let mut e = engine_with(&[
            (Opcode::MOV, [16, (a >> 8) as u8, a as u8]),
            (op, [16, 0x30, 0x00]),
            (Opcode::HALT, [0, 0, 0]),
        ]);
        poke_word(&mut e, OPERAND, b);
        e.run();
        assert_eq!(e.memory.memory[FLAG], flag);
        assert_eq!(e.read_reg(16), Ok(a));
    }
}

#[test]
fn conditional_jumps_follow_the_flag() {
    // r0 counts down from 3; loop while r0 != 0
    let mut e = engine_with(&[
        (Opcode::MOV, [0, 0, 3]),
        (Opcode::INC, [1, 0, 0]),
        (Opcode::DEC, [0, 0, 0]),
        (Opcode::NEQ, [0, 0x30, 0x00]),
        (Opcode::JMPT, [0, 0, 4]),
        (Opcode::HALT, [0, 0, 1]),
    ]);
    assert_eq!(e.run(), State::Halted(1));
    assert_eq!(e.read_reg(1), Ok(3));
    assert_eq!(e.read_reg(0), Ok(0));
}

#[test]
fn jmpf_and_jz_jump_on_clear_flag() {
    for op in [Opcode::JMPF, Opcode::JZ] {
        let mut e = engine_with(&[(op, [0, 0, 8]), (Opcode::HALT, [0, 0, 1]), (Opcode::HALT, [0, 0, 2])]);
        assert_eq!(e.run(), State::Halted(2));
    }
    let mut e = engine_with(&[(Opcode::JMPT, [0, 0, 8]), (Opcode::HALT, [0, 0, 1]), (Opcode::HALT, [0, 0, 2])]);
    assert_eq!(e.run(), State::Halted(1));
}

#[test]
fn jmp_sets_pc_without_advancing() {
    let mut e = engine_with(&[(Opcode::JMP, [0, 0, 12]), (Opcode::HALT, [0, 0, 1]), (Opcode::NOP, [0, 0, 0]), (Opcode::HALT, [0, 0, 3])]);
    e.step();
    assert_eq!(e.pc, 12);
    assert_eq!(e.state, State::Running);
    assert_eq!(e.run(), State::Halted(3));
}

#[test]
fn pc_is_mirrored_in_memory() {
    let mut e = engine_with(&[(Opcode::NOP, [0, 0, 0]), (Opcode::JMP, [0, 0x01, 0x02])]);
    e.step();
    assert_eq!(&e.memory.memory[PC..PC + 2], &[0, 4]);
    e.step();
    assert_eq!(&e.memory.memory[PC..PC + 2], &[0x01, 0x02]);
}

#[test]
fn call_and_ret() {
    let mut e = engine_with(&[
        (Opcode::CALL, [0, 0, 12]),
        (Opcode::INC, [0, 0, 0]),
        (Opcode::HALT, [0, 0, 5]),
        (Opcode::INC, [1, 0, 0]),
        (Opcode::RET, [0, 0, 0]),
    ]);
    assert_eq!(e.run(), State::Halted(5));
    assert_eq!(e.read_reg(0), Ok(1));
    assert_eq!(e.read_reg(1), Ok(1));
    assert_eq!(e.calls, 0);
}

#[test]
fn ret_without_call_underflows() {
    let mut e = engine_with(&[(Opcode::RET, [0, 0, 0])]);
    assert_eq!(e.run(), State::Faulted(Fault { error: VmError::StackUnderflow, pc: 0 }));
}

#[test]
fn unbounded_recursion_overflows_the_return_area() {
    let mut e = engine_with(&[(Opcode::CALL, [0, 0, 0])]);
    assert_eq!(e.run(), State::Faulted(Fault { error: VmError::StackOverflow, pc: 0 }));
    assert_eq!(e.calls, 128);
}

#[test]
fn push_pop_registers() {
    let mut e = engine_with(&[
        (Opcode::MOV, [16, 0xBE, 0xEF]),
        (Opcode::MOV, [0, 0, 0x42]),
        (Opcode::PUSH, [16, 0, 0]),
        (Opcode::PUSH, [0, 0, 0]),
        (Opcode::POP, [1, 0, 0]),
        (Opcode::POP, [17, 0, 0]),
        (Opcode::HALT, [0, 0, 0]),
    ]);
    e.run();
    assert_eq!(e.read_reg(1), Ok(0x42));
    assert_eq!(e.read_reg(17), Ok(0xBEEF));
    assert_eq!(e.memory.sp, STACK_END);
}

#[test]
fn pop_instruction_on_empty_stack_underflows() {
    let mut e = engine_with(&[(Opcode::POP, [0, 0, 0])]);
    assert_eq!(e.run(), State::Faulted(Fault { error: VmError::StackUnderflow, pc: 0 }));
}

#[test]
fn dup_and_swap() {
    let mut e = engine_with(&[
        (Opcode::MOV, [0, 0, 1]),
        (Opcode::MOV, [1, 0, 2]),
        (Opcode::PUSH, [0, 0, 0]),
        (Opcode::PUSH, [1, 0, 0]),
        (Opcode::SWAP, [0, 0, 0]),
        (Opcode::DUP, [0, 0, 0]),
        (Opcode::POP, [2, 0, 0]),
        (Opcode::POP, [3, 0, 0]),
        (Opcode::POP, [4, 0, 0]),
        (Opcode::HALT, [0, 0, 0]),
    ]);
    e.run();
    assert_eq!(e.read_reg(2), Ok(1));
    assert_eq!(e.read_reg(3), Ok(1));
    assert_eq!(e.read_reg(4), Ok(2));
}

#[test]
fn dup_and_swap_need_enough_bytes() {
    let mut e = engine_with(&[(Opcode::DUP, [0, 0, 0])]);
    assert_eq!(e.run(), State::Faulted(Fault { error: VmError::StackUnderflow, pc: 0 }));
    let mut e = engine_with(&[(Opcode::PUSH, [0, 0, 0]), (Opcode::SWAP, [0, 0, 0])]);
    assert_eq!(e.run(), State::Faulted(Fault { error: VmError::StackUnderflow, pc: 4 }));
}

#[test]
fn load_and_store() {
    let mut e = engine_with(&[
        (Opcode::LOAD, [16, 0x30, 0x00]),
        (Opcode::STORE, [16, 0x30, 0x10]),
        (Opcode::LOAD, [5, 0x30, 0x01]),
        (Opcode::STORE, [5, 0x30, 0x20]),
        (Opcode::HALT, [0, 0, 0]),
    ]);
    poke_word(&mut e, OPERAND, 0xCAFE);
    e.run();
    assert_eq!(e.read_reg(16), Ok(0xCAFE));
    assert_eq!(e.memory.read_block(Block::new(OPERAND + 0x10, 2)), Ok(vec![0xCA, 0xFE]));
    assert_eq!(e.read_reg(5), Ok(0xFE));
    assert_eq!(e.memory.read_byte(OPERAND + 0x20), Ok(0xFE));
    assert_eq!(e.memory.read_byte(OPERAND + 0x21), Ok(0));
}

#[test]
fn operand_address_out_of_bounds_faults() {
    let mut e = engine_with(&[(Opcode::ADD, [16, 0xFF, 0xFF])]);
    assert_eq!(
        e.run(),
        State::Faulted(Fault { error: VmError::OutOfBounds { start: 0xFFFF, size: 2 }, pc: 0 })
    );
    let mut e = engine_with(&[(Opcode::STORE, [0, 0xFF, 0x00])]);
    assert_eq!(
        e.run(),
        State::Faulted(Fault { error: VmError::OutOfBounds { start: 0xFF00, size: 1 }, pc: 0 })
    );
}

#[test]
fn invalid_register_faults() {
    let mut e = engine_with(&[(Opcode::MOV, [32, 0, 1])]);
    assert_eq!(e.run(), State::Faulted(Fault { error: VmError::InvalidRegister(32), pc: 0 }));
    assert_eq!(e.read_reg(32), Err(VmError::InvalidRegister(32)));
}

#[test]
fn input_and_output() {
    let mut e = engine_with(&[
        (Opcode::IN, [0, 0, 0]),
        (Opcode::INC, [0, 0, 0]),
        (Opcode::OUT, [0, 0, 0]),
        (Opcode::IN, [16, 0, 0]),
        (Opcode::OUT, [16, 0, 0]),
        (Opcode::IN, [1, 0, 0]),
    ]);
    e.set_input(vec![b'a', b'z']);
    assert_eq!(e.run(), State::Faulted(Fault { error: VmError::IOError, pc: 20 }));
    assert_eq!(e.output, vec![b'b', b'z']);
    assert_eq!(e.read_reg(16), Ok(b'z' as u16));
}

#[test]
fn sys_is_unimplemented_and_lab_nop_do_nothing() {
    let mut e = engine_with(&[(Opcode::LAB, [1, 2, 3]), (Opcode::NOP, [0, 0, 0]), (Opcode::SYS, [0, 0, 0])]);
    assert_eq!(
        e.run(),
        State::Faulted(Fault { error: VmError::UnimplementedOpcode(35), pc: 8 })
    );
}

#[test]
fn invalid_opcode_faults() {
    let mut e = Engine::new("x");
    e.load_program(&[0x99, 0, 0, 0]).unwrap();
    assert_eq!(e.run(), State::Faulted(Fault { error: VmError::InvalidOpcode(0x99), pc: 0 }));
}

#[test]
fn running_off_the_program_segment_faults() {
    let mut e = engine_with(&[(Opcode::JMP, [0, 0x0F, 0xFE])]);
    assert_eq!(
        e.run(),
        State::Faulted(Fault {
            error: VmError::OutOfBounds { start: PROGRAM_START + 0x0FFE, size: 4 },
            pc: 0x0FFE
        })
    );
}

#[test]
fn finished_engine_does_not_move() {
    let mut e = engine_with(&[(Opcode::HALT, [0, 0, 4]), (Opcode::INC, [0, 0, 0])]);
    assert_eq!(e.run(), State::Halted(4));
    assert!(e.is_finished());
    assert_eq!(e.run_for(10), State::Halted(4));
    e.step();
    assert_eq!(e.state, State::Halted(4));
    assert_eq!(e.pc, 0);
    assert_eq!(e.read_reg(0), Ok(0));
}

#[test]
fn run_for_stops_after_the_budget() {
    let mut e = engine_with(&[(Opcode::JMP, [0, 0, 0])]);
    assert_eq!(e.run_for(1000), State::Running);
    assert_eq!(e.pc, 0);
}

#[test]
fn program_too_large_is_refused() {
    let mut e = Engine::new("x");
    let big = vec![0u8; PROGRAM_SIZE + 1];
    assert_eq!(
        e.load_program(&big),
        Err(VmError::OutOfBounds { start: PROGRAM_START, size: PROGRAM_SIZE + 1 })
    );
    assert_eq!(e.load_program(&vec![0u8; PROGRAM_SIZE]), Ok(()));
}

#[test]
fn program_with_short_record_is_refused() {
    let mut e = Engine::new("x");
    let before = e.memory.memory.clone();
    assert_eq!(
        e.load_program(&[31, 0, 0, 3, 37, 0]),
        Err(VmError::SizeMismatch { expected: 4, found: 6 })
    );
    assert_eq!(e.memory.memory, before);
}

#[test]
fn each_instruction_moves_pc_by_four_unless_it_jumps() {
    let mut e = engine_with(&[
        (Opcode::MOV, [16, 0, 1]),
        (Opcode::ADD, [16, 0x30, 0x00]),
        (Opcode::PUSH, [0, 0, 0]),
        (Opcode::NEQ, [0, 0x30, 0x00]),
        (Opcode::JMPT, [0, 0, 40]),
        (Opcode::CALL, [0, 0, 28]),
        (Opcode::NOP, [0, 0, 0]),
        (Opcode::RET, [0, 0, 0]),
    ]);
    let expected = [4u16, 8, 12, 16, 20, 28, 24];
    for pc in expected {
        e.step();
        assert_eq!(e.state, State::Running);
        assert_eq!(e.pc, pc);
    }
}

#[test]
fn new_engine_keeps_its_path() {
    let e = Engine::new("prog.cb");
    assert_eq!(e.path, "prog.cb");
    assert_eq!(e.state, State::Loaded);
}
