use cranevm::error::VmError;
use cranevm::memory::{
    Block, Memory, Register, MEMORY_SIZE, PROGRAM_START, STACK_END, STACK_START,
};

#[test]
fn new_memory_is_zeroed_with_empty_stack() {
    let m = Memory::new();
    assert_eq!(m.memory.len(), MEMORY_SIZE);
    assert!(m.memory.iter().all(|&b| b == 0));
    assert_eq!(m.sp, STACK_END);
    assert_eq!(m.program, Block::new(PROGRAM_START, 4096));
}

#[test]
fn read_and_write_byte() {
    let mut m = Memory::new();
    assert_eq!(m.write_byte(100, 42), Ok(()));
    assert_eq!(m.read_byte(100), Ok(42));
    assert_eq!(m.read_byte(101), Ok(0));
}

#[test]
fn byte_access_out_of_bounds() {
    let mut m = Memory::new();
    assert_eq!(
        m.read_byte(MEMORY_SIZE),
        Err(VmError::OutOfBounds { start: MEMORY_SIZE, size: 1 })
    );
    assert_eq!(
        m.write_byte(MEMORY_SIZE + 5, 1),
        Err(VmError::OutOfBounds { start: MEMORY_SIZE + 5, size: 1 })
    );
    assert_eq!(m.read_byte(MEMORY_SIZE - 1), Ok(0));
}

#[test]
fn pop_on_empty_stack_underflows() {
    let mut m = Memory::new();
    assert_eq!(m.pop(), Err(VmError::StackUnderflow));
    assert_eq!(m.sp, STACK_END);
}

#[test]
fn push_then_pop_returns_the_byte() {
    let mut m = Memory::new();
    assert_eq!(m.push(0xAB), Ok(()));
    assert_eq!(m.sp, STACK_END - 1);
    assert_eq!(m.memory[STACK_END - 1], 0xAB);
    assert_eq!(m.pop(), Ok(0xAB));
    assert_eq!(m.sp, STACK_END);
}

#[test]
fn stack_is_last_in_first_out() {
    let mut m = Memory::new();
    for b in [1u8, 2, 3] {
        m.push(b).unwrap();
    }
    assert_eq!(m.pop(), Ok(3));
    assert_eq!(m.pop(), Ok(2));
    assert_eq!(m.pop(), Ok(1));
    assert_eq!(m.pop(), Err(VmError::StackUnderflow));
}

#[test]
fn push_on_full_stack_overflows() {
    let mut m = Memory::new();
    for i in 0..(STACK_END - STACK_START) {
        assert_eq!(m.push((i % 256) as u8), Ok(()));
    }
    assert_eq!(m.sp, STACK_START);
    let before = m.memory.clone();
    assert_eq!(m.push(9), Err(VmError::StackOverflow));
    assert_eq!(m.memory, before);
}

#[test]
fn swap_replaces_the_top_byte() {
    let mut m = Memory::new();
    assert_eq!(m.swap(1), Err(VmError::StackUnderflow));
    m.push(5).unwrap();
    assert_eq!(m.swap(6), Ok(5));
    assert_eq!(m.pop(), Ok(6));
}

#[test]
fn write_block_then_read_block_round_trips() {
    let mut m = Memory::new();
    let block = Block::new(PROGRAM_START + 8, 4);
    assert_eq!(m.write_block(block, &[1, 2, 3, 4]), Ok(()));
    assert_eq!(m.read_block(block), Ok(vec![1, 2, 3, 4]));
    assert_eq!(m.read_byte(PROGRAM_START + 7), Ok(0));
    assert_eq!(m.read_byte(PROGRAM_START + 12), Ok(0));
}

#[test]
fn block_out_of_bounds_leaves_memory_unchanged() {
    let mut m = Memory::new();
    m.write_byte(MEMORY_SIZE - 1, 7).unwrap();
    let before = m.memory.clone();
    let block = Block::new(MEMORY_SIZE - 1, 2);
    assert_eq!(
        m.write_block(block, &[1, 2]),
        Err(VmError::OutOfBounds { start: MEMORY_SIZE - 1, size: 2 })
    );
    assert_eq!(m.memory, before);
    assert_eq!(
        m.read_block(block),
        Err(VmError::OutOfBounds { start: MEMORY_SIZE - 1, size: 2 })
    );
    assert_eq!(
        m.write_block(Block::new(usize::MAX, 2), &[1, 2]),
        Err(VmError::OutOfBounds { start: usize::MAX, size: 2 })
    );
}

#[test]
fn write_block_size_mismatch() {
    let mut m = Memory::new();
    let before = m.memory.clone();
    assert_eq!(
        m.write_block(Block::new(10, 3), &[1, 2]),
        Err(VmError::SizeMismatch { expected: 3, found: 2 })
    );
    assert_eq!(m.memory, before);
}

#[test]
fn empty_block_at_the_end_is_in_bounds() {
    let mut m = Memory::new();
    let block = Block::new(MEMORY_SIZE, 0);
    assert_eq!(m.write_block(block, &[]), Ok(()));
    assert_eq!(m.read_block(block), Ok(vec![]));
}

#[test]
fn register_indices() {
    assert_eq!(Register::R0.index(), 0);
    assert_eq!(Register::Sp.index(), 15);
    assert_eq!(Register::Er0.index(), 16);
    assert_eq!(Register::Esp.index(), 31);
    assert_eq!(Register::from_index(24), Ok(Register::Eax));
    assert_eq!(Register::from_index(32), Err(VmError::InvalidRegister(32)));
    for i in 0..32u8 {
        assert_eq!(Register::from_index(i).unwrap().index(), i);
    }
}
