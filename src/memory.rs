use vstd::prelude::*;

use crate::error::VmError;

verus! {

/// Registers and scratch data.
pub const DATA_SIZE: usize = 2048;
/// The downward-growing byte stack.
pub const STACK_SIZE: usize = 4096;
/// Room for the loaded program.
pub const PROGRAM_SIZE: usize = 4096;
pub const HEAP_SIZE: usize = 16384;
/// Pool of 256 constants of one byte.
pub const CONSTANTS_8_SIZE: usize = 256;
/// Pool of 256 constants of two bytes.
pub const CONSTANTS_16_SIZE: usize = 512;

pub const DATA_START: usize = 0;
pub const STACK_START: usize = DATA_START + DATA_SIZE;
pub const PROGRAM_START: usize = STACK_START + STACK_SIZE;
pub const HEAP_START: usize = PROGRAM_START + PROGRAM_SIZE;
pub const CONSTANTS_8: usize = HEAP_START + HEAP_SIZE;
pub const CONSTANTS_16: usize = CONSTANTS_8 + CONSTANTS_8_SIZE;
/// Length of the whole memory image.
pub const MEMORY_SIZE: usize = CONSTANTS_16 + CONSTANTS_16_SIZE;
/// One past the highest stack byte: where an empty stack's cursor stands.
pub const STACK_END: usize = STACK_START + STACK_SIZE;

/// The register file at the bottom of the data segment: 16 registers of one
/// byte followed by 16 registers of two bytes, with room to spare.
pub const REG_START: usize = 0;
pub const REG_SIZE: usize = 96;
/// The byte that comparisons set to 0 or 1 and conditional jumps test.
pub const FLAG: usize = REG_START + REG_SIZE;
/// Two bytes that mirror the program counter after each instruction.
pub const PC: usize = REG_START + REG_SIZE + 16;
/// The area that holds the return addresses of CALL, two bytes each.
pub const RETURN_STACK_START: usize = REG_START + REG_SIZE + 32;
pub const RETURN_STACK_SIZE: usize = 256;

/// A contiguous range `start .. start + size` of the memory image.
#[derive(Debug, Clone, Copy, PartialEq, Eq, Structural)]
pub struct Block {
    pub start: usize,
    pub size: usize,
}

impl Block {
    pub fn new(start: usize, size: usize) -> (b: Block)
        ensures
            b.start == start,
            b.size == size,
    {
        Block { start, size }
    }

    /// One past the last address of the block.
    pub open spec fn end(self) -> int {
        self.start + self.size
    }

    /// The block lies inside the memory image.
    pub open spec fn in_bounds(self) -> bool {
        self.end() <= MEMORY_SIZE
    }
}

/// The memory image: one buffer cut into fixed segments, and the stack cursor.
pub struct Memory {
    pub memory: Vec<u8>,
    pub data: Block,
    pub stack: Block,
    pub program: Block,
    pub heap: Block,
    /// Address of the top byte of the stack; `STACK_END` when it is empty.
    pub sp: usize,
}

/// The bytes and cursor after pushing `value` on a stack whose cursor is `sp`.
pub open spec fn stack_push(bytes: Seq<u8>, sp: int, value: u8) -> (Seq<u8>, int) {
    (bytes.update(sp - 1, value), sp - 1)
}

/// The top byte and the cursor after popping from a stack whose cursor is `sp`.
pub open spec fn stack_pop(bytes: Seq<u8>, sp: int) -> (u8, int) {
    (bytes[sp], sp + 1)
}

/// `seq` with `data` written over it from `start` on.
pub open spec fn splice(seq: Seq<u8>, start: int, data: Seq<u8>) -> Seq<u8> {
    seq.subrange(0, start) + data + seq.subrange(start + data.len(), seq.len() as int)
}

impl Memory {
    pub open spec fn wf(&self) -> bool {
        &&& self.memory@.len() == MEMORY_SIZE
        &&& self.data == Block { start: DATA_START, size: DATA_SIZE }
        &&& self.stack == Block { start: STACK_START, size: STACK_SIZE }
        &&& self.program == Block { start: PROGRAM_START, size: PROGRAM_SIZE }
        &&& self.heap == Block { start: HEAP_START, size: HEAP_SIZE }
        &&& STACK_START <= self.sp <= STACK_END
    }

    /// The bytes of the image.
    pub open spec fn bytes(&self) -> Seq<u8> {
        self.memory@
    }

    /// The bytes on the stack, top first.
    pub open spec fn stack_bytes(&self) -> Seq<u8> {
        self.memory@.subrange(self.sp as int, STACK_END as int)
    }

    /// A zero-filled image with an empty stack.
    pub fn new() -> (m: Memory)
        ensures
            m.wf(),
            m.bytes() == Seq::new(MEMORY_SIZE as nat, |i: int| 0u8),
            m.sp == STACK_END,
    {
        let mut memory: Vec<u8> = Vec::new();
        let mut i: usize = 0;
        while i < MEMORY_SIZE
            invariant
                i <= MEMORY_SIZE,
                memory@ == Seq::new(i as nat, |j: int| 0u8),
            decreases MEMORY_SIZE - i,
        {
            memory.push(0u8);
            i = i + 1;
        }
        Memory {
            memory,
            data: Block::new(DATA_START, DATA_SIZE),
            stack: Block::new(STACK_START, STACK_SIZE),
            program: Block::new(PROGRAM_START, PROGRAM_SIZE),
            heap: Block::new(HEAP_START, HEAP_SIZE),
            sp: STACK_END,
        }
    }

    /// The byte at `address`.
    pub fn read_byte(&self, address: usize) -> (r: Result<u8, VmError>)
        requires
            self.wf(),
        ensures
            address < MEMORY_SIZE ==> r == Ok::<u8, VmError>(self.bytes()[address as int]),
            address >= MEMORY_SIZE ==> r == Err::<u8, VmError>(
                VmError::OutOfBounds { start: address, size: 1 },
            ),
    {
        if address < self.memory.len() {
            Ok(self.memory[address])
        } else {
            Err(VmError::OutOfBounds { start: address, size: 1 })
        }
    }

    /// Writes `value` at `address`; out of range, nothing changes.
    pub fn write_byte(&mut self, address: usize, value: u8) -> (r: Result<(), VmError>)
        requires
            old(self).wf(),
        ensures
            final(self).wf(),
            final(self).sp == old(self).sp,
            address < MEMORY_SIZE ==> r is Ok && final(self).bytes() == old(self).bytes().update(
                address as int,
                value,
            ),
            address >= MEMORY_SIZE ==> r == Err::<(), VmError>(
                VmError::OutOfBounds { start: address, size: 1 },
            ) && final(self).bytes() == old(self).bytes(),
    {
        if address < self.memory.len() {
            self.memory.set(address, value);
            Ok(())
        } else {
            Err(VmError::OutOfBounds { start: address, size: 1 })
        }
    }

    /// Pushes one byte: the cursor moves down and the byte is stored there.
    pub fn push(&mut self, value: u8) -> (r: Result<(), VmError>)
        requires
            old(self).wf(),
        ensures
            final(self).wf(),
            old(self).sp == STACK_START ==> r == Err::<(), VmError>(VmError::StackOverflow)
                && final(self).bytes() == old(self).bytes() && final(self).sp == old(self).sp,
            old(self).sp > STACK_START ==> r is Ok && (final(self).bytes(), final(self).sp as int)
                == stack_push(old(self).bytes(), old(self).sp as int, value),
    {
        if self.sp == STACK_START {
            return Err(VmError::StackOverflow);
        }
        self.sp = self.sp - 1;
        self.memory.set(self.sp, value);
        Ok(())
    }

    /// Pops the top byte of the stack.
    pub fn pop(&mut self) -> (r: Result<u8, VmError>)
        requires
            old(self).wf(),
        ensures
            final(self).wf(),
            final(self).bytes() == old(self).bytes(),
            old(self).sp == STACK_END ==> r == Err::<u8, VmError>(VmError::StackUnderflow)
                && final(self).sp == old(self).sp,
            old(self).sp < STACK_END ==> r is Ok && (r->Ok_0, final(self).sp as int) == stack_pop(
                old(self).bytes(),
                old(self).sp as int,
            ),
    {
        if self.sp == STACK_END {
            return Err(VmError::StackUnderflow);
        }
        let value = self.memory[self.sp];
        self.sp = self.sp + 1;
        Ok(value)
    }

    /// Replaces the top byte of the stack with `value` and returns the byte it held.
    pub fn swap(&mut self, value: u8) -> (r: Result<u8, VmError>)
        requires
            old(self).wf(),
        ensures
            final(self).wf(),
            final(self).sp == old(self).sp,
            old(self).sp == STACK_END ==> r == Err::<u8, VmError>(VmError::StackUnderflow)
                && final(self).bytes() == old(self).bytes(),
            old(self).sp < STACK_END ==> r == Ok::<u8, VmError>(old(self).bytes()[old(self).sp as int])
                && final(self).bytes() == old(self).bytes().update(old(self).sp as int, value),
    {
        let old_top = self.pop()?;
        let pushed = self.push(value);
        proof {
            assert(pushed is Ok);
        }
        Ok(old_top)
    }

    /// Copies `data` into `block`. A block that leaves the image is refused
    /// first, then data whose length is not the block's size; either way
    /// nothing changes.
    pub fn write_block(&mut self, block: Block, data: &[u8]) -> (r: Result<(), VmError>)
        requires
            old(self).wf(),
        ensures
            final(self).wf(),
            final(self).sp == old(self).sp,
            !block.in_bounds() ==> r == Err::<(), VmError>(
                VmError::OutOfBounds { start: block.start, size: block.size },
            ),
            block.in_bounds() && data@.len() != block.size ==> r == Err::<(), VmError>(
                VmError::SizeMismatch { expected: block.size, found: data@.len() as usize },
            ),
            r is Ok <==> block.in_bounds() && data@.len() == block.size,
            r is Ok ==> final(self).bytes() == splice(old(self).bytes(), block.start as int, data@),
            r is Err ==> final(self).bytes() == old(self).bytes(),
    {
        if block.start > self.memory.len() || block.size > self.memory.len() - block.start {
            return Err(VmError::OutOfBounds { start: block.start, size: block.size });
        }
        if data.len() != block.size {
            return Err(VmError::SizeMismatch { expected: block.size, found: data.len() });
        }
        let ghost before = self.memory@;
        let mut i: usize = 0;
        while i < data.len()
            invariant
                self.wf(),
                self.sp == old(self).sp,
                before == old(self).bytes(),
                block.start + data@.len() <= MEMORY_SIZE,
                i <= data@.len(),
                forall|j: int|
                    0 <= j < MEMORY_SIZE ==> #[trigger] self.memory@[j] == if block.start <= j
                        < block.start + i {
                        data@[j - block.start]
                    } else {
                        before[j]
                    },
            decreases data@.len() - i,
        {
            self.memory.set(block.start + i, data[i]);
            i = i + 1;
        }
        assert(self.memory@ =~= splice(before, block.start as int, data@));
        Ok(())
    }

    /// A copy of the bytes of `block`.
    pub fn read_block(&self, block: Block) -> (r: Result<Vec<u8>, VmError>)
        requires
            self.wf(),
        ensures
            !block.in_bounds() ==> r == Err::<Vec<u8>, VmError>(
                VmError::OutOfBounds { start: block.start, size: block.size },
            ),
            block.in_bounds() ==> r is Ok && r->Ok_0@ == self.bytes().subrange(
                block.start as int,
                block.end(),
            ),
    {
        if block.start > self.memory.len() || block.size > self.memory.len() - block.start {
            return Err(VmError::OutOfBounds { start: block.start, size: block.size });
        }
        let mut out: Vec<u8> = Vec::new();
        let mut i: usize = 0;
        while i < block.size
            invariant
                self.wf(),
                block.in_bounds(),
                i <= block.size,
                out@ == self.bytes().subrange(block.start as int, block.start + i),
            decreases block.size - i,
        {
            out.push(self.memory[block.start + i]);
            i = i + 1;
            assert(out@ =~= self.bytes().subrange(block.start as int, block.start + i));
        }
        Ok(out)
    }
}

/// Writing a block and reading the same block back gives the data written.
pub proof fn lemma_write_then_read_block(bytes: Seq<u8>, block: Block, data: Seq<u8>)
    requires
        bytes.len() == MEMORY_SIZE,
        block.in_bounds(),
        data.len() == block.size,
    ensures
        splice(bytes, block.start as int, data).len() == MEMORY_SIZE,
        splice(bytes, block.start as int, data).subrange(block.start as int, block.end()) == data,
{
    assert(splice(bytes, block.start as int, data).subrange(block.start as int, block.end())
        =~= data);
}

/// A byte pushed on a stack with room is the byte that the next pop returns,
/// and that pop leaves the cursor where it was before the push.
pub proof fn lemma_push_then_pop(bytes: Seq<u8>, sp: int, value: u8)
    requires
        bytes.len() == MEMORY_SIZE,
        STACK_START < sp <= STACK_END,
    ensures
        stack_push(bytes, sp, value).1 < STACK_END,
        stack_pop(stack_push(bytes, sp, value).0, stack_push(bytes, sp, value).1) == (value, sp),
{
}

/// The named registers. Indices below 16 are one byte wide, indices 16 to
/// 31 two bytes wide.
#[derive(Debug, Clone, Copy, PartialEq, Eq, Structural)]
pub enum Register {
    // one byte, general purpose
    R0,
    R1,
    R2,
    R3,
    R4,
    R5,
    R6,
    R7,
    // one byte, function registers
    Ax,
    Bx,
    Cx,
    Dx,
    Si,
    Di,
    Bp,
    Sp,
    // two bytes, general purpose
    Er0,
    Er1,
    Er2,
    Er3,
    Er4,
    Er5,
    Er6,
    Er7,
    // two bytes, function registers
    Eax,
    Ebx,
    Ecx,
    Edx,
    Esi,
    Edi,
    Ebp,
    Esp,
}

/// The index of a register.
pub open spec fn register_index(r: Register) -> u8 {
    match r {
        Register::R0 => 0u8,
        Register::R1 => 1u8,
        Register::R2 => 2u8,
        Register::R3 => 3u8,
        Register::R4 => 4u8,
        Register::R5 => 5u8,
        Register::R6 => 6u8,
        Register::R7 => 7u8,
        Register::Ax => 8u8,
        Register::Bx => 9u8,
        Register::Cx => 10u8,
        Register::Dx => 11u8,
        Register::Si => 12u8,
        Register::Di => 13u8,
        Register::Bp => 14u8,
        Register::Sp => 15u8,
        Register::Er0 => 16u8,
        Register::Er1 => 17u8,
        Register::Er2 => 18u8,
        Register::Er3 => 19u8,
        Register::Er4 => 20u8,
        Register::Er5 => 21u8,
        Register::Er6 => 22u8,
        Register::Er7 => 23u8,
        Register::Eax => 24u8,
        Register::Ebx => 25u8,
        Register::Ecx => 26u8,
        Register::Edx => 27u8,
        Register::Esi => 28u8,
        Register::Edi => 29u8,
        Register::Ebp => 30u8,
        Register::Esp => 31u8,
    }
}

impl Register {
    /// The index that names this register in an instruction.
    pub fn index(self) -> (r: u8)
        ensures
            r == register_index(self),
            r < 32,
    {
        match self {
            Register::R0 => 0,
            Register::R1 => 1,
            Register::R2 => 2,
            Register::R3 => 3,
            Register::R4 => 4,
            Register::R5 => 5,
            Register::R6 => 6,
            Register::R7 => 7,
            Register::Ax => 8,
            Register::Bx => 9,
            Register::Cx => 10,
            Register::Dx => 11,
            Register::Si => 12,
            Register::Di => 13,
            Register::Bp => 14,
            Register::Sp => 15,
            Register::Er0 => 16,
            Register::Er1 => 17,
            Register::Er2 => 18,
            Register::Er3 => 19,
            Register::Er4 => 20,
            Register::Er5 => 21,
            Register::Er6 => 22,
            Register::Er7 => 23,
            Register::Eax => 24,
            Register::Ebx => 25,
            Register::Ecx => 26,
            Register::Edx => 27,
            Register::Esi => 28,
            Register::Edi => 29,
            Register::Ebp => 30,
            Register::Esp => 31,
        }
    }

    /// The register named by `index`; an index from 32 on names none.
    pub fn from_index(index: u8) -> (r: Result<Register, VmError>)
        ensures
            index < 32 ==> r is Ok && register_index(r->Ok_0) == index,
            index >= 32 ==> r == Err::<Register, VmError>(VmError::InvalidRegister(index)),
    {
        match index {
            0 => Ok(Register::R0),
            1 => Ok(Register::R1),
            2 => Ok(Register::R2),
            3 => Ok(Register::R3),
            4 => Ok(Register::R4),
            5 => Ok(Register::R5),
            6 => Ok(Register::R6),
            7 => Ok(Register::R7),
            8 => Ok(Register::Ax),
            9 => Ok(Register::Bx),
            10 => Ok(Register::Cx),
            11 => Ok(Register::Dx),
            12 => Ok(Register::Si),
            13 => Ok(Register::Di),
            14 => Ok(Register::Bp),
            15 => Ok(Register::Sp),
            16 => Ok(Register::Er0),
            17 => Ok(Register::Er1),
            18 => Ok(Register::Er2),
            19 => Ok(Register::Er3),
            20 => Ok(Register::Er4),
            21 => Ok(Register::Er5),
            22 => Ok(Register::Er6),
            23 => Ok(Register::Er7),
            24 => Ok(Register::Eax),
            25 => Ok(Register::Ebx),
            26 => Ok(Register::Ecx),
            27 => Ok(Register::Edx),
            28 => Ok(Register::Esi),
            29 => Ok(Register::Edi),
            30 => Ok(Register::Ebp),
            31 => Ok(Register::Esp),
            _ => Err(VmError::InvalidRegister(index)),
        }
    }
}

/// A snapshot of a whole memory image tagged with the program it belongs to.
pub struct Page {
    pub data: Vec<u8>,
    pub program_id: usize,
}

} // verus!
