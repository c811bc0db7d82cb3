use vstd::prelude::*;

use crate::error::VmError;
use crate::memory::{
    Block, Memory, FLAG, MEMORY_SIZE, PC, PROGRAM_SIZE, PROGRAM_START, REG_START, RETURN_STACK_SIZE,
    RETURN_STACK_START, STACK_END, STACK_START,
};
use crate::structs::{decode, decode_spec, opcode_byte, Opcode};

verus! {

/// Every instruction record is this many bytes long.
pub const INSTRUCTION_SIZE: usize = 4;
/// How many return addresses the return area holds.
pub const MAX_CALLS: usize = RETURN_STACK_SIZE / 2;

// ---------------------------------------------------------------------------
// The machine as a mathematical value, and what one instruction does to it.
// ---------------------------------------------------------------------------

/// Everything an instruction can read or change.
pub struct Machine {
    pub mem: Seq<u8>,
    /// The stack cursor.
    pub sp: int,
    /// Offset of the next instruction in the program segment.
    pub pc: u16,
    /// How many return addresses are held.
    pub calls: int,
    /// The bytes that IN reads, and how many of them it has read.
    pub input: Seq<u8>,
    pub input_pos: int,
    /// The bytes that OUT has written.
    pub output: Seq<u8>,
}

/// What executing one instruction leads to. After a halt or a failure the
/// machine is as it was before the instruction.
pub enum Outcome {
    Next(Machine),
    Halt(u8),
    Fail(VmError),
}

/// A register index names a register.
pub open spec fn valid_reg(r: u8) -> bool {
    r < 32
}

/// What an instruction's handler leads to. After a halt or a failure the
/// machine is as it was before the instruction.
pub enum Effect {
    /// The handler is done; the program counter has not moved.
    Done(Machine),
    /// The handler set the program counter itself.
    Jump(Machine),
    Halt(u8),
    Fail(VmError),
}

/// Width in bytes of register `r`.
pub open spec fn reg_width(r: u8) -> int {
    if r < 16 {
        1
    } else {
        2
    }
}

/// Address of register `r`: the narrow ones one byte apart, the wide ones
/// two bytes apart after them.
pub open spec fn reg_addr(r: u8) -> int {
    if r < 16 {
        REG_START + r
    } else {
        REG_START + 16 + 2 * (r - 16)
    }
}

/// The 16-bit value of a high and a low byte.
pub open spec fn word(hi: u8, lo: u8) -> u16 {
    (hi * 256 + lo) as u16
}

/// The 16-bit value stored big-endian at `a`.
pub open spec fn word_at(mem: Seq<u8>, a: int) -> u16 {
    word(mem[a], mem[a + 1])
}

/// `mem` with `v` stored big-endian at `a`.
pub open spec fn set_word(mem: Seq<u8>, a: int, v: u16) -> Seq<u8> {
    mem.update(a, (v / 256) as u8).update(a + 1, (v % 256) as u8)
}

/// The value of `w` bytes (one or two) at `a`.
pub open spec fn read_width(mem: Seq<u8>, a: int, w: int) -> u16 {
    if w == 1 {
        mem[a] as u16
    } else {
        word_at(mem, a)
    }
}

/// `mem` with `v` stored in `w` bytes (one or two) at `a`; one byte keeps
/// the low byte of `v`.
pub open spec fn write_width(mem: Seq<u8>, a: int, w: int, v: u16) -> Seq<u8> {
    if w == 1 {
        mem.update(a, (v % 256) as u8)
    } else {
        set_word(mem, a, v)
    }
}

/// The value of register `r`.
pub open spec fn reg_value(mem: Seq<u8>, r: u8) -> u16 {
    read_width(mem, reg_addr(r), reg_width(r))
}

/// `mem` with register `r` set to `v`, cut to the register's width.
pub open spec fn set_reg(mem: Seq<u8>, r: u8, v: u16) -> Seq<u8> {
    write_width(mem, reg_addr(r), reg_width(r), v)
}

/// `x` reduced to 16 bits.
pub open spec fn wrap16(x: int) -> u16 {
    (x % 65536) as u16
}

/// The result of a two-operand arithmetic or logical instruction, or
/// `None` for a division by zero. `bits` is the register's width in bits;
/// shift counts are taken modulo it.
pub open spec fn alu(op: Opcode, a: u16, b: u16, bits: u16) -> Option<u16> {
    match op {
        Opcode::ADD => Some(wrap16(a + b)),
        Opcode::SUB => Some(wrap16(a - b + 65536)),
        Opcode::MUL => Some(wrap16(a * b)),
        Opcode::DIV => if b == 0 {
            None
        } else {
            Some((a / b) as u16)
        },
        Opcode::MOD => if b == 0 {
            None
        } else {
            Some((a % b) as u16)
        },
        Opcode::AND => Some(a & b),
        Opcode::OR => Some(a | b),
        Opcode::XOR => Some(a ^ b),
        Opcode::SHL => Some(a << ((b % bits) as u16)),
        _ => Some(a >> ((b % bits) as u16)),
    }
}

/// The truth of a comparison instruction.
pub open spec fn compare(op: Opcode, a: u16, b: u16) -> bool {
    match op {
        Opcode::EQ => a == b,
        Opcode::NEQ => a != b,
        Opcode::LT => a < b,
        Opcode::GT => a > b,
        Opcode::LTE => a <= b,
        _ => a >= b,
    }
}

/// The result of a one-operand instruction.
pub open spec fn unary(op: Opcode, a: u16) -> u16 {
    match op {
        Opcode::INC => wrap16(a + 1),
        Opcode::DEC => wrap16(a + 65535),
        _ => !a,
    }
}

pub open spec fn is_binary(op: Opcode) -> bool {
    op == Opcode::ADD || op == Opcode::SUB || op == Opcode::MUL || op == Opcode::DIV || op
        == Opcode::MOD || op == Opcode::AND || op == Opcode::OR || op == Opcode::XOR || op
        == Opcode::SHL || op == Opcode::SHR
}

pub open spec fn is_comparison(op: Opcode) -> bool {
    op == Opcode::EQ || op == Opcode::NEQ || op == Opcode::LT || op == Opcode::GT || op
        == Opcode::LTE || op == Opcode::GTE
}

pub open spec fn is_unary(op: Opcode) -> bool {
    op == Opcode::INC || op == Opcode::DEC || op == Opcode::NOT
}

pub open spec fn is_jump(op: Opcode) -> bool {
    op == Opcode::JMP || op == Opcode::JMPT || op == Opcode::JMPF || op == Opcode::JZ
}

/// The machine moved on to the next instruction.
pub open spec fn advance(m: Machine) -> Machine {
    Machine { pc: (m.pc + 4) as u16, ..m }
}

/// The machine with its memory replaced.
pub open spec fn with_mem(m: Machine, mem: Seq<u8>) -> Machine {
    Machine { mem, ..m }
}

/// ADD SUB MUL DIV MOD AND OR XOR SHL SHR: register `r` combined with the
/// word at address `hi:lo`.
pub open spec fn binary_spec(m: Machine, op: Opcode, r: u8, hi: u8, lo: u8) -> Effect {
    let addr = word(hi, lo) as int;
    if !valid_reg(r) {
        Effect::Fail(VmError::InvalidRegister(r))
    } else if addr + 2 > MEMORY_SIZE {
        Effect::Fail(VmError::OutOfBounds { start: addr as usize, size: 2 })
    } else {
        match alu(op, reg_value(m.mem, r), word_at(m.mem, addr), (8 * reg_width(r)) as u16) {
            Some(v) => Effect::Done(with_mem(m, set_reg(m.mem, r, v))),
            None => Effect::Fail(VmError::DivideByZero),
        }
    }
}

/// EQ NEQ LT GT LTE GTE: the flag byte becomes 1 when register `r` stands
/// in the relation to the word at `hi:lo`, else 0.
pub open spec fn compare_spec(m: Machine, op: Opcode, r: u8, hi: u8, lo: u8) -> Effect {
    let addr = word(hi, lo) as int;
    if !valid_reg(r) {
        Effect::Fail(VmError::InvalidRegister(r))
    } else if addr + 2 > MEMORY_SIZE {
        Effect::Fail(VmError::OutOfBounds { start: addr as usize, size: 2 })
    } else {
        let flag: u8 = if compare(op, reg_value(m.mem, r), word_at(m.mem, addr)) {
            1
        } else {
            0
        };
        Effect::Done(with_mem(m, m.mem.update(FLAG as int, flag)))
    }
}

/// INC DEC NOT on register `r`.
pub open spec fn unary_spec(m: Machine, op: Opcode, r: u8) -> Effect {
    if !valid_reg(r) {
        Effect::Fail(VmError::InvalidRegister(r))
    } else {
        Effect::Done(with_mem(m, set_reg(m.mem, r, unary(op, reg_value(m.mem, r)))))
    }
}

/// PUSH: the register's bytes go on the stack, high byte on top.
pub open spec fn push_spec(m: Machine, r: u8) -> Effect {
    let w = reg_width(r);
    if !valid_reg(r) {
        Effect::Fail(VmError::InvalidRegister(r))
    } else if m.sp - STACK_START < w {
        Effect::Fail(VmError::StackOverflow)
    } else {
        Effect::Done(
            Machine {
                    mem: write_width(m.mem, m.sp - w, w, reg_value(m.mem, r)),
                    sp: m.sp - w,
                    ..m
                },
        )
    }
}

/// POP: the register takes as many bytes off the stack as it is wide.
pub open spec fn pop_spec(m: Machine, r: u8) -> Effect {
    let w = reg_width(r);
    if !valid_reg(r) {
        Effect::Fail(VmError::InvalidRegister(r))
    } else if STACK_END - m.sp < w {
        Effect::Fail(VmError::StackUnderflow)
    } else {
        Effect::Done(
            Machine { mem: set_reg(m.mem, r, read_width(m.mem, m.sp, w)), sp: m.sp + w, ..m },
        )
    }
}

/// DUP: a copy of the top byte is pushed.
pub open spec fn dup_spec(m: Machine) -> Effect {
    if m.sp == STACK_END {
        Effect::Fail(VmError::StackUnderflow)
    } else if m.sp == STACK_START {
        Effect::Fail(VmError::StackOverflow)
    } else {
        Effect::Done(Machine { mem: m.mem.update(m.sp - 1, m.mem[m.sp]), sp: m.sp - 1, ..m })
    }
}

/// SWAP: the two top bytes of the stack change places.
pub open spec fn swap_spec(m: Machine) -> Effect {
    if STACK_END - m.sp < 2 {
        Effect::Fail(VmError::StackUnderflow)
    } else {
        Effect::Done(
            with_mem(m, m.mem.update(m.sp, m.mem[m.sp + 1]).update(m.sp + 1, m.mem[m.sp])),
        )
    }
}

/// JMP always, JMPT when the flag is set, JMPF and JZ when it is zero: the
/// program counter becomes `hi:lo`.
pub open spec fn jump_spec(m: Machine, op: Opcode, hi: u8, lo: u8) -> Effect {
    let taken = match op {
        Opcode::JMP => true,
        Opcode::JMPT => m.mem[FLAG as int] != 0,
        _ => m.mem[FLAG as int] == 0,
    };
    if taken {
        Effect::Jump(Machine { pc: word(hi, lo), ..m })
    } else {
        Effect::Done(m)
    }
}

/// CALL: the address of the next instruction is saved in the return area
/// and the program counter becomes `hi:lo`.
pub open spec fn call_spec(m: Machine, hi: u8, lo: u8) -> Effect {
    if m.calls >= MAX_CALLS {
        Effect::Fail(VmError::StackOverflow)
    } else {
        Effect::Jump(
            Machine {
                mem: set_word(m.mem, RETURN_STACK_START + 2 * m.calls, (m.pc + 4) as u16),
                calls: m.calls + 1,
                pc: word(hi, lo),
                ..m
            },
        )
    }
}

/// RET: the program counter goes back to the last saved return address.
pub open spec fn ret_spec(m: Machine) -> Effect {
    if m.calls == 0 {
        Effect::Fail(VmError::StackUnderflow)
    } else {
        Effect::Jump(
            Machine {
                calls: m.calls - 1,
                pc: word_at(m.mem, RETURN_STACK_START + 2 * (m.calls - 1)),
                ..m
            },
        )
    }
}

/// LOAD: register `r` takes its width in bytes from address `hi:lo`.
pub open spec fn load_spec(m: Machine, r: u8, hi: u8, lo: u8) -> Effect {
    let addr = word(hi, lo) as int;
    let w = reg_width(r);
    if !valid_reg(r) {
        Effect::Fail(VmError::InvalidRegister(r))
    } else if addr + w > MEMORY_SIZE {
        Effect::Fail(VmError::OutOfBounds { start: addr as usize, size: w as usize })
    } else {
        Effect::Done(with_mem(m, set_reg(m.mem, r, read_width(m.mem, addr, w))))
    }
}

/// STORE: the bytes of register `r` are written at address `hi:lo`.
pub open spec fn store_spec(m: Machine, r: u8, hi: u8, lo: u8) -> Effect {
    let addr = word(hi, lo) as int;
    let w = reg_width(r);
    if !valid_reg(r) {
        Effect::Fail(VmError::InvalidRegister(r))
    } else if addr + w > MEMORY_SIZE {
        Effect::Fail(VmError::OutOfBounds { start: addr as usize, size: w as usize })
    } else {
        Effect::Done(with_mem(m, write_width(m.mem, addr, w, reg_value(m.mem, r))))
    }
}

/// MOV: register `r` is set to the immediate `hi:lo`.
pub open spec fn mov_spec(m: Machine, r: u8, hi: u8, lo: u8) -> Effect {
    if !valid_reg(r) {
        Effect::Fail(VmError::InvalidRegister(r))
    } else {
        Effect::Done(with_mem(m, set_reg(m.mem, r, word(hi, lo))))
    }
}

/// IN: register `r` takes the next input byte.
pub open spec fn in_spec(m: Machine, r: u8) -> Effect {
    if !valid_reg(r) {
        Effect::Fail(VmError::InvalidRegister(r))
    } else if m.input_pos >= m.input.len() {
        Effect::Fail(VmError::IOError)
    } else {
        Effect::Done(
            Machine {
                    mem: set_reg(m.mem, r, m.input[m.input_pos] as u16),
                    input_pos: m.input_pos + 1,
                    ..m
                },
        )
    }
}

/// OUT: the low byte of register `r` is written to the output.
pub open spec fn out_spec(m: Machine, r: u8) -> Effect {
    if !valid_reg(r) {
        Effect::Fail(VmError::InvalidRegister(r))
    } else {
        Effect::Done(Machine { output: m.output.push((reg_value(m.mem, r) % 256) as u8), ..m })
    }
}

/// What the handler of instruction `op` with operands `a b c` does to `m`.
pub open spec fn effect_spec(m: Machine, op: Opcode, a: u8, b: u8, c: u8) -> Effect {
    if is_binary(op) {
        binary_spec(m, op, a, b, c)
    } else if is_comparison(op) {
        compare_spec(m, op, a, b, c)
    } else if is_unary(op) {
        unary_spec(m, op, a)
    } else if is_jump(op) {
        jump_spec(m, op, b, c)
    } else {
        match op {
            Opcode::PUSH => push_spec(m, a),
            Opcode::POP => pop_spec(m, a),
            Opcode::DUP => dup_spec(m),
            Opcode::SWAP => swap_spec(m),
            Opcode::CALL => call_spec(m, b, c),
            Opcode::RET => ret_spec(m),
            Opcode::LOAD => load_spec(m, a, b, c),
            Opcode::STORE => store_spec(m, a, b, c),
            Opcode::MOV => mov_spec(m, a, b, c),
            Opcode::IN => in_spec(m, a),
            Opcode::OUT => out_spec(m, a),
            Opcode::SYS => Effect::Fail(VmError::UnimplementedOpcode(opcode_byte(op))),
            Opcode::HALT => Effect::Halt(c),
            _ => Effect::Done(m),
        }
    }
}

/// What instruction `op` with operands `a b c` does to `m`: its handler's
/// effect, after which the program counter moves to the next instruction
/// unless the handler set it.
pub open spec fn exec_spec(m: Machine, op: Opcode, a: u8, b: u8, c: u8) -> Outcome {
    match effect_spec(m, op, a, b, c) {
        Effect::Done(n) => Outcome::Next(advance(n)),
        Effect::Jump(n) => Outcome::Next(n),
        Effect::Halt(code) => Outcome::Halt(code),
        Effect::Fail(e) => Outcome::Fail(e),
    }
}

/// Fetch, decode and execute the instruction at the program counter. After
/// an instruction that goes on, the program counter is mirrored into memory.
pub open spec fn step_spec(m: Machine) -> Outcome {
    let at = PROGRAM_START + m.pc;
    if m.pc + INSTRUCTION_SIZE > PROGRAM_SIZE {
        Outcome::Fail(VmError::OutOfBounds { start: at as usize, size: INSTRUCTION_SIZE })
    } else {
        match decode_spec(m.mem.subrange(at, at + 4)) {
            None => Outcome::Fail(VmError::InvalidOpcode(m.mem[at])),
            Some((op, ops)) => match exec_spec(m, op, ops[0], ops[1], ops[2]) {
                Outcome::Next(n) => Outcome::Next(with_mem(n, set_word(n.mem, PC as int, n.pc))),
                other => other,
            },
        }
    }
}

/// How a handler's result and new machine match an effect.
pub open spec fn effect_follows(pre: Machine, post: Machine, e: Effect, r: Result<Flow, VmError>) -> bool {
    match e {
        Effect::Done(m) => r == Ok::<Flow, VmError>(Flow::Done) && post == m,
        Effect::Jump(m) => r == Ok::<Flow, VmError>(Flow::Jump) && post == m,
        Effect::Halt(code) => r == Ok::<Flow, VmError>(Flow::Halt(code)) && post == pre,
        Effect::Fail(err) => r == Err::<Flow, VmError>(err) && post == pre,
    }
}

/// How the result of executing an instruction and the new machine match an
/// outcome.
pub open spec fn follows(pre: Machine, post: Machine, o: Outcome, r: Result<Option<u8>, VmError>) -> bool {
    match o {
        Outcome::Next(m) => r == Ok::<Option<u8>, VmError>(None) && post == m,
        Outcome::Halt(code) => r == Ok::<Option<u8>, VmError>(Some(code)) && post == pre,
        Outcome::Fail(e) => r == Err::<Option<u8>, VmError>(e) && post == pre,
    }
}

// ---------------------------------------------------------------------------
// The engine.
// ---------------------------------------------------------------------------

/// How a handler ended: done, with the program counter set, or halted.
#[derive(Debug, Clone, Copy, PartialEq, Eq, Structural)]
pub enum Flow {
    Done,
    Jump,
    Halt(u8),
}

/// A fatal error and the program counter of the instruction that raised it.
#[derive(Debug, Clone, Copy, PartialEq, Eq, Structural)]
pub struct Fault {
    pub error: VmError,
    pub pc: u16,
}

/// Where the engine is in its life.
#[derive(Debug, Clone, Copy, PartialEq, Eq, Structural)]
pub enum State {
    /// A program may be loaded; nothing has run yet.
    Loaded,
    Running,
    /// HALT ran, with this exit status.
    Halted(u8),
    Faulted(Fault),
}

/// Halted and Faulted are final.
pub open spec fn terminal(s: State) -> bool {
    s is Halted || s is Faulted
}

/// The machine and state after an instruction with outcome `o`.
pub open spec fn after_step(m: Machine, o: Outcome) -> (Machine, State) {
    match o {
        Outcome::Next(n) => (n, State::Running),
        Outcome::Halt(code) => (m, State::Halted(code)),
        Outcome::Fail(e) => (m, State::Faulted(Fault { error: e, pc: m.pc })),
    }
}

/// The machine and state after at most `n` instructions, stopping at a
/// final state.
pub open spec fn run_spec(m: Machine, s: State, n: nat) -> (Machine, State)
    decreases n,
{
    if n == 0 || terminal(s) {
        (m, s)
    } else {
        let next = after_step(m, step_spec(m));
        run_spec(next.0, next.1, (n - 1) as nat)
    }
}

/// The fetch-decode-execute engine. It owns the memory image; registers
/// live in that image.
pub struct Engine {
    /// Where the program image was read from.
    pub path: String,
    pub memory: Memory,
    /// Offset of the next instruction in the program segment.
    pub pc: u16,
    /// How many return addresses CALL has saved and RET not yet taken.
    pub calls: usize,
    /// The bytes that IN reads, and how many of them it has read.
    pub input: Vec<u8>,
    pub input_pos: usize,
    /// The bytes that OUT has written.
    pub output: Vec<u8>,
    pub state: State,
}

impl View for Engine {
    type V = Machine;

    open spec fn view(&self) -> Machine {
        Machine {
            mem: self.memory.bytes(),
            sp: self.memory.sp as int,
            pc: self.pc,
            calls: self.calls as int,
            input: self.input@,
            input_pos: self.input_pos as int,
            output: self.output@,
        }
    }
}

impl Engine {
    pub open spec fn wf(&self) -> bool {
        &&& self.memory.wf()
        &&& self.calls <= MAX_CALLS
        &&& self.input_pos <= self.input@.len()
    }

    /// A fresh engine: zeroed memory, empty stack, no input, state Loaded.
    pub fn new(path: &str) -> (e: Engine)
        ensures
            e.wf(),
            e@.mem == Seq::new(MEMORY_SIZE as nat, |i: int| 0u8),
            e@.sp == STACK_END,
            e@.pc == 0,
            e@.calls == 0,
            e@.input.len() == 0,
            e@.input_pos == 0,
            e@.output.len() == 0,
            e.state == State::Loaded,
            e.path@ == path@,
    {
        Engine {
            path: path.to_owned(),
            memory: Memory::new(),
            pc: 0,
            calls: 0,
            input: Vec::new(),
            input_pos: 0,
            output: Vec::new(),
            state: State::Loaded,
        }
    }

    /// Copies a program image to the start of the program segment. An image
    /// longer than the segment is refused, then one whose last record is
    /// short of four bytes; either way nothing changes.
    pub fn load_program(&mut self, program: &[u8]) -> (r: Result<(), VmError>)
        requires
            old(self).wf(),
        ensures
            final(self).wf(),
            final(self).state == old(self).state,
            r is Ok <==> program@.len() <= PROGRAM_SIZE && program@.len() % 4 == 0,
            program@.len() > PROGRAM_SIZE ==> r == Err::<(), VmError>(
                VmError::OutOfBounds { start: PROGRAM_START, size: program@.len() as usize },
            ),
            program@.len() <= PROGRAM_SIZE && program@.len() % 4 != 0 ==> r == Err::<(), VmError>(
                VmError::SizeMismatch {
                    expected: (program@.len() - program@.len() % 4) as usize,
                    found: program@.len() as usize,
                },
            ),
            r is Err ==> final(self)@ == old(self)@,
            r is Ok ==> final(self)@ == with_mem(
                old(self)@,
                crate::memory::splice(old(self)@.mem, PROGRAM_START as int, program@),
            ),
    {
        if program.len() > PROGRAM_SIZE {
            return Err(VmError::OutOfBounds { start: PROGRAM_START, size: program.len() });
        }
        if program.len() % 4 != 0 {
            return Err(
                VmError::SizeMismatch {
                    expected: program.len() - program.len() % 4,
                    found: program.len(),
                },
            );
        }
        let written = self.memory.write_block(Block::new(PROGRAM_START, program.len()), program);
        proof {
            assert(written is Ok);
        }
        Ok(())
    }

    /// Replaces the bytes that IN reads, from the first one on.
    pub fn set_input(&mut self, input: Vec<u8>)
        requires
            old(self).wf(),
        ensures
            final(self).wf(),
            final(self).state == old(self).state,
            final(self)@ == (Machine { input: input@, input_pos: 0, ..old(self)@ }),
    {
        self.input = input;
        self.input_pos = 0;
    }

    /// The 16-bit value of a big-endian byte pair.
    pub fn bytes_to_u16(bytes: [u8; 2]) -> (r: u16)
        ensures
            r == word(bytes[0], bytes[1]),
    {
        bytes[0] as u16 * 256 + bytes[1] as u16
    }

    /// The big-endian byte pair of a 16-bit value.
    pub fn u16_to_bytes(value: u16) -> (r: [u8; 2])
        ensures
            r[0] == value / 256,
            r[1] == value % 256,
            word(r[0], r[1]) == value,
    {
        [(value / 256) as u8, (value % 256) as u8]
    }

    /// Width in bytes of register `reg`.
    pub fn sizeof_reg(reg: u8) -> (r: usize)
        ensures
            r == reg_width(reg),
    {
        if reg < 16 {
            1
        } else {
            2
        }
    }

    /// Address of register `reg`.
    fn reg_address(reg: u8) -> (r: usize)
        requires
            valid_reg(reg),
        ensures
            r == reg_addr(reg),
            r + reg_width(reg) <= FLAG,
    {
        if reg < 16 {
            REG_START + reg as usize
        } else {
            REG_START + 16 + 2 * (reg as usize - 16)
        }
    }

    fn read_sized(&self, addr: usize, width: usize) -> (v: u16)
        requires
            self.wf(),
            width == 1 || width == 2,
            addr + width <= MEMORY_SIZE,
        ensures
            v == read_width(self@.mem, addr as int, width as int),
    {
        if width == 1 {
            self.memory.memory[addr] as u16
        } else {
            Self::bytes_to_u16([self.memory.memory[addr], self.memory.memory[addr + 1]])
        }
    }

    fn write_sized(&mut self, addr: usize, width: usize, v: u16)
        requires
            old(self).wf(),
            width == 1 || width == 2,
            addr + width <= MEMORY_SIZE,
        ensures
            final(self).wf(),
            final(self).state == old(self).state,
            final(self)@ == with_mem(old(self)@, write_width(old(self)@.mem, addr as int, width as int, v)),
    {
        let bytes = Self::u16_to_bytes(v);
        if width == 1 {
            self.memory.memory.set(addr, bytes[1]);
        } else {
            self.memory.memory.set(addr, bytes[0]);
            self.memory.memory.set(addr + 1, bytes[1]);
        }
    }

    /// The value of register `reg`, zero-extended for a one-byte register.
    pub fn read_reg(&self, reg: u8) -> (r: Result<u16, VmError>)
        requires
            self.wf(),
        ensures
            valid_reg(reg) ==> r == Ok::<u16, VmError>(reg_value(self@.mem, reg)),
            !valid_reg(reg) ==> r == Err::<u16, VmError>(VmError::InvalidRegister(reg)),
    {
        if reg >= 32 {
            return Err(VmError::InvalidRegister(reg));
        }
        Ok(self.read_sized(Self::reg_address(reg), Self::sizeof_reg(reg)))
    }

    fn write_reg(&mut self, reg: u8, v: u16)
        requires
            old(self).wf(),
            valid_reg(reg),
        ensures
            final(self).wf(),
            final(self).state == old(self).state,
            final(self)@ == with_mem(old(self)@, set_reg(old(self)@.mem, reg, v)),
    {
        self.write_sized(Self::reg_address(reg), Self::sizeof_reg(reg), v);
    }
}

// Instruction handlers. Each one checks everything that can fail before it
// changes anything. Only the control transfers touch the program counter.
impl Engine {
    /// ADD SUB MUL DIV MOD AND OR XOR SHL SHR.
    fn alu_op(&mut self, op: Opcode, operands: [u8; 3]) -> (r: Result<Flow, VmError>)
        requires
            old(self).wf(),
            old(self).pc + INSTRUCTION_SIZE <= PROGRAM_SIZE,
            is_binary(op),
        ensures
            final(self).wf(),
            final(self).state == old(self).state,
            effect_follows(
                old(self)@,
                final(self)@,
                binary_spec(old(self)@, op, operands[0], operands[1], operands[2]),
                r,
            ),
    {
        let reg = operands[0];
        let a = self.read_reg(reg)?;
        let addr = Self::bytes_to_u16([operands[1], operands[2]]) as usize;
        if addr + 2 > MEMORY_SIZE {
            return Err(VmError::OutOfBounds { start: addr, size: 2 });
        }
        let b = self.read_sized(addr, 2);
        let bits = (8 * Self::sizeof_reg(reg)) as u16;
        let v: u16 = match op {
            Opcode::ADD => ((a as u32 + b as u32) % 65536) as u16,
            Opcode::SUB => ((a as u32 + 65536 - b as u32) % 65536) as u16,
            Opcode::MUL => a.wrapping_mul(b),
            Opcode::DIV => {
                if b == 0 {
                    return Err(VmError::DivideByZero);
                }
                a / b
            },
            Opcode::MOD => {
                if b == 0 {
                    return Err(VmError::DivideByZero);
                }
                a % b
            },
            Opcode::AND => a & b,
            Opcode::OR => a | b,
            Opcode::XOR => a ^ b,
            Opcode::SHL => a << (b % bits),
            _ => a >> (b % bits),
        };
        self.write_reg(reg, v);
        Ok(Flow::Done)
    }

    /// EQ NEQ LT GT LTE GTE.
    fn compare_op(&mut self, op: Opcode, operands: [u8; 3]) -> (r: Result<Flow, VmError>)
        requires
            old(self).wf(),
            old(self).pc + INSTRUCTION_SIZE <= PROGRAM_SIZE,
            is_comparison(op),
        ensures
            final(self).wf(),
            final(self).state == old(self).state,
            effect_follows(
                old(self)@,
                final(self)@,
                compare_spec(old(self)@, op, operands[0], operands[1], operands[2]),
                r,
            ),
    {
        let a = self.read_reg(operands[0])?;
        let addr = Self::bytes_to_u16([operands[1], operands[2]]) as usize;
        if addr + 2 > MEMORY_SIZE {
            return Err(VmError::OutOfBounds { start: addr, size: 2 });
        }
        let b = self.read_sized(addr, 2);
        let holds = match op {
            Opcode::EQ => a == b,
            Opcode::NEQ => a != b,
            Opcode::LT => a < b,
            Opcode::GT => a > b,
            Opcode::LTE => a <= b,
            _ => a >= b,
        };
        let flag: u8 = if holds {
            1
        } else {
            0
        };
        self.memory.memory.set(FLAG, flag);
        Ok(Flow::Done)
    }

    /// INC DEC NOT.
    fn unary_op(&mut self, op: Opcode, operands: [u8; 3]) -> (r: Result<Flow, VmError>)
        requires
            old(self).wf(),
            old(self).pc + INSTRUCTION_SIZE <= PROGRAM_SIZE,
            is_unary(op),
        ensures
            final(self).wf(),
            final(self).state == old(self).state,
            effect_follows(old(self)@, final(self)@, unary_spec(old(self)@, op, operands[0]), r),
    {
        let reg = operands[0];
        let a = self.read_reg(reg)?;
        let v: u16 = match op {
            Opcode::INC => ((a as u32 + 1) % 65536) as u16,
            Opcode::DEC => ((a as u32 + 65535) % 65536) as u16,
            _ => !a,
        };
        self.write_reg(reg, v);
        Ok(Flow::Done)
    }

    /// PUSH.
    fn push_reg(&mut self, operands: [u8; 3]) -> (r: Result<Flow, VmError>)
        requires
            old(self).wf(),
            old(self).pc + INSTRUCTION_SIZE <= PROGRAM_SIZE,
        ensures
            final(self).wf(),
            final(self).state == old(self).state,
            effect_follows(old(self)@, final(self)@, push_spec(old(self)@, operands[0]), r),
    {
        let reg = operands[0];
        let v = self.read_reg(reg)?;
        let w = Self::sizeof_reg(reg);
        if self.memory.sp - STACK_START < w {
            return Err(VmError::StackOverflow);
        }
        self.memory.sp = self.memory.sp - w;
        self.write_sized(self.memory.sp, w, v);
        Ok(Flow::Done)
    }

    /// POP.
    fn pop_reg(&mut self, operands: [u8; 3]) -> (r: Result<Flow, VmError>)
        requires
            old(self).wf(),
            old(self).pc + INSTRUCTION_SIZE <= PROGRAM_SIZE,
        ensures
            final(self).wf(),
            final(self).state == old(self).state,
            effect_follows(old(self)@, final(self)@, pop_spec(old(self)@, operands[0]), r),
    {
        let reg = operands[0];
        if reg >= 32 {
            return Err(VmError::InvalidRegister(reg));
        }
        let w = Self::sizeof_reg(reg);
        if STACK_END - self.memory.sp < w {
            return Err(VmError::StackUnderflow);
        }
        let v = self.read_sized(self.memory.sp, w);
        self.memory.sp = self.memory.sp + w;
        self.write_reg(reg, v);
        Ok(Flow::Done)
    }

    /// DUP.
    fn dup(&mut self) -> (r: Result<Flow, VmError>)
        requires
            old(self).wf(),
            old(self).pc + INSTRUCTION_SIZE <= PROGRAM_SIZE,
        ensures
            final(self).wf(),
            final(self).state == old(self).state,
            effect_follows(old(self)@, final(self)@, dup_spec(old(self)@), r),
    {
        if self.memory.sp == STACK_END {
            return Err(VmError::StackUnderflow);
        }
        let top = self.memory.memory[self.memory.sp];
        self.memory.push(top)?;
        Ok(Flow::Done)
    }

    /// SWAP.
    fn swap_top(&mut self) -> (r: Result<Flow, VmError>)
        requires
            old(self).wf(),
            old(self).pc + INSTRUCTION_SIZE <= PROGRAM_SIZE,
        ensures
            final(self).wf(),
            final(self).state == old(self).state,
            effect_follows(old(self)@, final(self)@, swap_spec(old(self)@), r),
    {
        if STACK_END - self.memory.sp < 2 {
            return Err(VmError::StackUnderflow);
        }
        let second = self.memory.memory[self.memory.sp + 1];
        let top = self.memory.swap(second)?;
        self.memory.memory.set(self.memory.sp + 1, top);
        Ok(Flow::Done)
    }

    /// JMP JMPT JMPF JZ.
    fn jump(&mut self, op: Opcode, operands: [u8; 3]) -> (r: Result<Flow, VmError>)
        requires
            old(self).wf(),
            old(self).pc + INSTRUCTION_SIZE <= PROGRAM_SIZE,
            is_jump(op),
        ensures
            final(self).wf(),
            final(self).state == old(self).state,
            effect_follows(old(self)@, final(self)@, jump_spec(old(self)@, op, operands[1], operands[2]), r),
    {
        let flag = self.memory.memory[FLAG];
        let taken = match op {
            Opcode::JMP => true,
            Opcode::JMPT => flag != 0,
            _ => flag == 0,
        };
        if taken {
            self.pc = Self::bytes_to_u16([operands[1], operands[2]]);
            Ok(Flow::Jump)
        } else {
            Ok(Flow::Done)
        }
    }

    /// CALL.
    fn call(&mut self, operands: [u8; 3]) -> (r: Result<Flow, VmError>)
        requires
            old(self).wf(),
            old(self).pc + INSTRUCTION_SIZE <= PROGRAM_SIZE,
        ensures
            final(self).wf(),
            final(self).state == old(self).state,
            effect_follows(old(self)@, final(self)@, call_spec(old(self)@, operands[1], operands[2]), r),
    {
        if self.calls >= MAX_CALLS {
            return Err(VmError::StackOverflow);
        }
        self.write_sized(RETURN_STACK_START + 2 * self.calls, 2, self.pc + 4);
        self.calls = self.calls + 1;
        self.pc = Self::bytes_to_u16([operands[1], operands[2]]);
        Ok(Flow::Jump)
    }

    /// RET.
    fn ret(&mut self) -> (r: Result<Flow, VmError>)
        requires
            old(self).wf(),
            old(self).pc + INSTRUCTION_SIZE <= PROGRAM_SIZE,
        ensures
            final(self).wf(),
            final(self).state == old(self).state,
            effect_follows(old(self)@, final(self)@, ret_spec(old(self)@), r),
    {
        if self.calls == 0 {
            return Err(VmError::StackUnderflow);
        }
        let target = self.read_sized(RETURN_STACK_START + 2 * (self.calls - 1), 2);
        self.calls = self.calls - 1;
        self.pc = target;
        Ok(Flow::Jump)
    }

    /// LOAD.
    fn load(&mut self, operands: [u8; 3]) -> (r: Result<Flow, VmError>)
        requires
            old(self).wf(),
            old(self).pc + INSTRUCTION_SIZE <= PROGRAM_SIZE,
        ensures
            final(self).wf(),
            final(self).state == old(self).state,
            effect_follows(
                old(self)@,
                final(self)@,
                load_spec(old(self)@, operands[0], operands[1], operands[2]),
                r,
            ),
    {
        let reg = operands[0];
        if reg >= 32 {
            return Err(VmError::InvalidRegister(reg));
        }
        let w = Self::sizeof_reg(reg);
        let addr = Self::bytes_to_u16([operands[1], operands[2]]) as usize;
        if addr + w > MEMORY_SIZE {
            return Err(VmError::OutOfBounds { start: addr, size: w });
        }
        let v = self.read_sized(addr, w);
        self.write_reg(reg, v);
        Ok(Flow::Done)
    }

    /// STORE: the register's bytes go to memory.
    fn store(&mut self, operands: [u8; 3]) -> (r: Result<Flow, VmError>)
        requires
            old(self).wf(),
            old(self).pc + INSTRUCTION_SIZE <= PROGRAM_SIZE,
        ensures
            final(self).wf(),
            final(self).state == old(self).state,
            effect_follows(
                old(self)@,
                final(self)@,
                store_spec(old(self)@, operands[0], operands[1], operands[2]),
                r,
            ),
    {
        let reg = operands[0];
        let v = self.read_reg(reg)?;
        let w = Self::sizeof_reg(reg);
        let addr = Self::bytes_to_u16([operands[1], operands[2]]) as usize;
        if addr + w > MEMORY_SIZE {
            return Err(VmError::OutOfBounds { start: addr, size: w });
        }
        self.write_sized(addr, w, v);
        Ok(Flow::Done)
    }

    /// MOV.
    fn mov(&mut self, operands: [u8; 3]) -> (r: Result<Flow, VmError>)
        requires
            old(self).wf(),
            old(self).pc + INSTRUCTION_SIZE <= PROGRAM_SIZE,
        ensures
            final(self).wf(),
            final(self).state == old(self).state,
            effect_follows(
                old(self)@,
                final(self)@,
                mov_spec(old(self)@, operands[0], operands[1], operands[2]),
                r,
            ),
    {
        let reg = operands[0];
        if reg >= 32 {
            return Err(VmError::InvalidRegister(reg));
        }
        self.write_reg(reg, Self::bytes_to_u16([operands[1], operands[2]]));
        Ok(Flow::Done)
    }

    /// IN.
    fn input_byte(&mut self, operands: [u8; 3]) -> (r: Result<Flow, VmError>)
        requires
            old(self).wf(),
            old(self).pc + INSTRUCTION_SIZE <= PROGRAM_SIZE,
        ensures
            final(self).wf(),
            final(self).state == old(self).state,
            effect_follows(old(self)@, final(self)@, in_spec(old(self)@, operands[0]), r),
    {
        let reg = operands[0];
        if reg >= 32 {
            return Err(VmError::InvalidRegister(reg));
        }
        if self.input_pos >= self.input.len() {
            return Err(VmError::IOError);
        }
        let b = self.input[self.input_pos];
        self.write_reg(reg, b as u16);
        self.input_pos = self.input_pos + 1;
        Ok(Flow::Done)
    }

    /// OUT.
    fn output_byte(&mut self, operands: [u8; 3]) -> (r: Result<Flow, VmError>)
        requires
            old(self).wf(),
            old(self).pc + INSTRUCTION_SIZE <= PROGRAM_SIZE,
        ensures
            final(self).wf(),
            final(self).state == old(self).state,
            effect_follows(old(self)@, final(self)@, out_spec(old(self)@, operands[0]), r),
    {
        let v = self.read_reg(operands[0])?;
        self.output.push((v % 256) as u8);
        Ok(Flow::Done)
    }
}

// The fetch-decode-execute cycle.
impl Engine {
    /// Runs instruction `op` with `operands`: the handler for its opcode,
    /// then the move to the next instruction unless the handler set the
    /// program counter itself.
    fn execute(&mut self, op: Opcode, operands: [u8; 3]) -> (r: Result<Option<u8>, VmError>)
        requires
            old(self).wf(),
            old(self).pc + INSTRUCTION_SIZE <= PROGRAM_SIZE,
        ensures
            final(self).wf(),
            final(self).state == old(self).state,
            follows(
                old(self)@,
                final(self)@,
                exec_spec(old(self)@, op, operands[0], operands[1], operands[2]),
                r,
            ),
    {
        let flow = match op {
            Opcode::ADD | Opcode::SUB | Opcode::MUL | Opcode::DIV | Opcode::MOD | Opcode::AND
            | Opcode::OR | Opcode::XOR | Opcode::SHL | Opcode::SHR => self.alu_op(op, operands),
            Opcode::EQ | Opcode::NEQ | Opcode::LT | Opcode::GT | Opcode::LTE | Opcode::GTE => {
                self.compare_op(op, operands)
            },
            Opcode::INC | Opcode::DEC | Opcode::NOT => self.unary_op(op, operands),
            Opcode::JMP | Opcode::JMPT | Opcode::JMPF | Opcode::JZ => self.jump(op, operands),
            Opcode::PUSH => self.push_reg(operands),
            Opcode::POP => self.pop_reg(operands),
            Opcode::DUP => self.dup(),
            Opcode::SWAP => self.swap_top(),
            Opcode::CALL => self.call(operands),
            Opcode::RET => self.ret(),
            Opcode::LOAD => self.load(operands),
            Opcode::STORE => self.store(operands),
            Opcode::MOV => self.mov(operands),
            Opcode::IN => self.input_byte(operands),
            Opcode::OUT => self.output_byte(operands),
            Opcode::SYS => Err(VmError::UnimplementedOpcode(op.to_byte())),
            Opcode::HALT => Ok(Flow::Halt(operands[2])),
            Opcode::LAB | Opcode::NOP => Ok(Flow::Done),
        };
        match flow {
            Ok(Flow::Done) => {
                self.pc = self.pc + 4;
                Ok(None)
            },
            Ok(Flow::Jump) => Ok(None),
            Ok(Flow::Halt(code)) => Ok(Some(code)),
            Err(e) => Err(e),
        }
    }

    /// The four bytes at the program counter.
    fn fetch(&self) -> (r: Result<[u8; 4], VmError>)
        requires
            self.wf(),
        ensures
            self.pc + INSTRUCTION_SIZE > PROGRAM_SIZE ==> r == Err::<[u8; 4], VmError>(
                VmError::OutOfBounds {
                    start: (PROGRAM_START + self.pc) as usize,
                    size: INSTRUCTION_SIZE,
                },
            ),
            self.pc + INSTRUCTION_SIZE <= PROGRAM_SIZE ==> r is Ok && r->Ok_0@ == self@.mem.subrange(
                PROGRAM_START + self.pc,
                PROGRAM_START + self.pc + 4,
            ),
    {
        let at = PROGRAM_START + self.pc as usize;
        if self.pc as usize + INSTRUCTION_SIZE > PROGRAM_SIZE {
            return Err(VmError::OutOfBounds { start: at, size: INSTRUCTION_SIZE });
        }
        let m = &self.memory.memory;
        let bytes = [m[at], m[at + 1], m[at + 2], m[at + 3]];
        assert(bytes@ =~= self@.mem.subrange(at as int, at + 4));
        Ok(bytes)
    }

    /// Whether the engine has halted or faulted.
    pub fn is_finished(&self) -> (r: bool)
        ensures
            r == terminal(self.state),
    {
        match self.state {
            State::Halted(_) | State::Faulted(_) => true,
            _ => false,
        }
    }

    /// Runs one instruction: fetch, decode, execute. The engine then runs
    /// on, halts or faults as `step_spec` says; a halted or faulted engine
    /// stays as it is.
    pub fn step(&mut self)
        requires
            old(self).wf(),
        ensures
            final(self).wf(),
            terminal(old(self).state) ==> final(self)@ == old(self)@ && final(self).state == old(
                self,
            ).state,
            !terminal(old(self).state) ==> (final(self)@, final(self).state) == after_step(
                old(self)@,
                step_spec(old(self)@),
            ),
    {
        if self.is_finished() {
            return ;
        }
        let pc = self.pc;
        let bytes = match self.fetch() {
            Ok(b) => b,
            Err(e) => {
                self.state = State::Faulted(Fault { error: e, pc });
                return ;
            },
        };
        let instruction = match decode(bytes) {
            Ok(i) => i,
            Err(e) => {
                self.state = State::Faulted(Fault { error: e, pc });
                return ;
            },
        };
        match self.execute(instruction.opcode, instruction.operands) {
            Ok(None) => {
                let b = Self::u16_to_bytes(self.pc);
                self.memory.memory.set(PC, b[0]);
                self.memory.memory.set(PC + 1, b[1]);
                self.state = State::Running;
            },
            Ok(Some(code)) => {
                self.state = State::Halted(code);
            },
            Err(e) => {
                self.state = State::Faulted(Fault { error: e, pc });
            },
        }
    }

    /// Runs at most `max_steps` instructions, stopping at HALT or at the
    /// first fault, and returns the state reached.
    pub fn run_for(&mut self, max_steps: u64) -> (r: State)
        requires
            old(self).wf(),
        ensures
            final(self).wf(),
            (final(self)@, final(self).state) == run_spec(old(self)@, old(self).state, max_steps as nat),
            r == final(self).state,
    {
        let mut i: u64 = 0;
        let mut done = self.is_finished();
        while i < max_steps && !done
            invariant
                self.wf(),
                i <= max_steps,
                done == terminal(self.state),
                run_spec(self@, self.state, (max_steps - i) as nat) == run_spec(
                    old(self)@,
                    old(self).state,
                    max_steps as nat,
                ),
            decreases max_steps - i,
        {
            self.step();
            i = i + 1;
            done = self.is_finished();
        }
        self.state
    }

    /// Runs the loaded program until it halts or faults. A program that does
    /// neither is stopped after `u64::MAX` instructions.
    pub fn run(&mut self) -> (r: State)
        requires
            old(self).wf(),
        ensures
            final(self).wf(),
            (final(self)@, final(self).state) == run_spec(old(self)@, old(self).state, u64::MAX as nat),
            r == final(self).state,
    {
        self.run_for(u64::MAX)
    }
}

/// ADD, SUB and MUL on a two-byte register wrap at the 16-bit boundary: the
/// register reads back as the exact sum, difference or product modulo 2^16.
/// The handler changes no other byte and leaves the program counter alone.
pub proof fn lemma_arith_wraps(m: Machine, op: Opcode, r: u8, hi: u8, lo: u8)
    requires
        16 <= r < 32,
        m.mem.len() == MEMORY_SIZE,
        word(hi, lo) + 2 <= MEMORY_SIZE,
        op == Opcode::ADD || op == Opcode::SUB || op == Opcode::MUL,
    ensures
        effect_spec(m, op, r, hi, lo) is Done,
        (effect_spec(m, op, r, hi, lo)->Done_0).pc == m.pc,
        forall|x: int|
            0 <= x < m.mem.len() && !(reg_addr(r) <= x < reg_addr(r) + 2) ==> (#[trigger] (
            effect_spec(m, op, r, hi, lo)->Done_0).mem[x]) == m.mem[x],
        exec_spec(m, op, r, hi, lo) is Next,
        reg_value((exec_spec(m, op, r, hi, lo)->Next_0).mem, r) == exact_arith(
            op,
            reg_value(m.mem, r) as int,
            word_at(m.mem, word(hi, lo) as int) as int,
        ) % 65536,
{
    let a = reg_value(m.mem, r) as int;
    let b = word_at(m.mem, word(hi, lo) as int) as int;
    let v = alu(op, a as u16, b as u16, 16)->Some_0;
    let n = set_reg(m.mem, r, v);
    assert(n[reg_addr(r)] == v / 256);
    assert(n[reg_addr(r) + 1] == v % 256);
    assert((v / 256) * 256 + v % 256 == v) by (nonlinear_arith);
    assert(reg_value(n, r) == v);
    if op == Opcode::SUB {
        assert((a - b + 65536) % 65536 == (a - b) % 65536) by (nonlinear_arith);
    }
}

/// The unreduced result of ADD, SUB or MUL.
pub open spec fn exact_arith(op: Opcode, a: int, b: int) -> int {
    match op {
        Opcode::ADD => a + b,
        Opcode::SUB => a - b,
        _ => a * b,
    }
}

/// MOV with operands `r hi lo` on a two-byte register sets it to exactly
/// `hi * 256 + lo`, whatever the machine held before. The handler changes
/// no other byte of memory and leaves the program counter alone; executing
/// the instruction then moves to the next one.
pub proof fn lemma_mov_sets_register(m: Machine, r: u8, hi: u8, lo: u8)
    requires
        16 <= r < 32,
        m.mem.len() == MEMORY_SIZE,
    ensures
        effect_spec(m, Opcode::MOV, r, hi, lo) is Done,
        (effect_spec(m, Opcode::MOV, r, hi, lo)->Done_0).pc == m.pc,
        reg_value((effect_spec(m, Opcode::MOV, r, hi, lo)->Done_0).mem, r) == hi * 256 + lo,
        forall|x: int|
            0 <= x < m.mem.len() && !(reg_addr(r) <= x < reg_addr(r) + 2) ==> (#[trigger] (
            effect_spec(m, Opcode::MOV, r, hi, lo)->Done_0).mem[x]) == m.mem[x],
        exec_spec(m, Opcode::MOV, r, hi, lo) == Outcome::Next(
            advance(effect_spec(m, Opcode::MOV, r, hi, lo)->Done_0),
        ),
{
}

/// DIV and MOD with a zero divisor fault with DivideByZero, and leave the
/// machine as it was.
pub proof fn lemma_divide_by_zero_faults(m: Machine)
    requires
        m.mem.len() == MEMORY_SIZE,
        m.pc + INSTRUCTION_SIZE <= PROGRAM_SIZE,
        m.mem[PROGRAM_START + m.pc] == opcode_byte(Opcode::DIV) || m.mem[PROGRAM_START + m.pc]
            == opcode_byte(Opcode::MOD),
        valid_reg(m.mem[PROGRAM_START + m.pc + 1]),
        word(m.mem[PROGRAM_START + m.pc + 2], m.mem[PROGRAM_START + m.pc + 3]) + 2
            <= MEMORY_SIZE,
        word_at(m.mem, word(m.mem[PROGRAM_START + m.pc + 2], m.mem[PROGRAM_START + m.pc + 3]) as int)
            == 0,
    ensures
        after_step(m, step_spec(m)) == (
            m,
            State::Faulted(Fault { error: VmError::DivideByZero, pc: m.pc }),
        ),
{
    let at = PROGRAM_START + m.pc;
    let bytes = m.mem.subrange(at, at + 4);
    assert(bytes[0] == m.mem[at]);
    assert(bytes[1] == m.mem[at + 1]);
    assert(bytes[2] == m.mem[at + 2]);
    assert(bytes[3] == m.mem[at + 3]);
}

} // verus!
