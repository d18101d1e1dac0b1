use riscv::mem::{MemError, Memory, Size};
use riscv::word::from_signed;

#[test]
fn test_memory_word() {
    let mut mem = Memory::new(0x8000usize);
    let data = 0x12345678u32;
    mem.write(0usize, data, Size::WORD).expect("Failed to write memory correctly");
    assert_eq!(mem.read(0usize, Size::WORD).unwrap(), data);
}

#[test]
fn test_memory_half() {
    let mut mem = Memory::new(0x8000usize);
    let data = 0x12345678u32;
    mem.write(0usize, data, Size::HALF).expect("Failed to write memory correctly");
    let read = mem.read(0usize, Size::HALF).unwrap();
    assert_eq!(read, data & 0xffff, "read = 0x{:x}, expected = 0x{:x}", read, data);
}

#[test]
fn test_memory_byte() {
    let mut mem = Memory::new(0x8000usize);
    let data = 0x12345678u32;
    mem.write(0usize, data, Size::BYTE).expect("Failed to write memory correctly");
    let read = mem.read(0usize, Size::BYTE).unwrap();
    assert_eq!(read, data & 0xff, "read = 0x{:x}, expected = 0x{:x}", read, data);
}

#[test]
fn test_signed_byte() {
    let mut mem = Memory::new(0x4usize);
    let data = 0xffu32;
    mem.write(0usize, data, Size::BYTE).expect("Failed to write memory correctly");
    let read = from_signed(mem.read_signed(0usize, Size::BYTE).unwrap());
    assert_eq!(read, 0xffffffff);
}

#[test]
fn test_signed_half() {
    let mut mem = Memory::new(0x4usize);
    let data = 0xffffu32;
    mem.write(0usize, data, Size::HALF).expect("Failed to write memory correctly");
    let read = from_signed(mem.read_signed(0usize, Size::HALF).unwrap());
    assert_eq!(read, 0xffffffff);
}

/// The bounds check is on the end of the access: the last word-aligned
/// address holds a word, one byte past it does not.
#[test]
fn bounds_are_checked_on_the_access_end() {
    let mut mem = Memory::new(16usize);
    assert_eq!(mem.write(12, 0xdead_beef, Size::WORD), Ok(()));
    assert_eq!(mem.read(12, Size::WORD), Ok(0xdead_beef));
    assert_eq!(mem.write(13, 1, Size::WORD), Err(MemError::OutOfBounds));
    assert_eq!(mem.read(13, Size::WORD), Err(MemError::OutOfBounds));
    assert_eq!(mem.read_signed(15, Size::HALF), Err(MemError::OutOfBounds));
    assert_eq!(mem.read(15, Size::BYTE), Ok(0xde));
    assert_eq!(mem.read_instr(16), Err(MemError::OutOfBounds));
}

/// Queued stores do not touch the bytes until they are drained, and they
/// drain in arrival order; draining an empty queue is refused.
#[test]
fn store_queue_drains_in_order() {
    let mut mem = Memory::new(16usize);
    assert_eq!(mem.complete_write(), Err(MemError::NoPendingStore));
    mem.queue_write(0, 0x11, Size::BYTE).unwrap();
    mem.queue_write(0, 0x22, Size::BYTE).unwrap();
    assert_eq!(mem.read(0, Size::BYTE).unwrap(), 0);
    mem.complete_write().unwrap();
    assert_eq!(mem.read(0, Size::BYTE).unwrap(), 0x11);
    mem.complete_write().unwrap();
    assert_eq!(mem.read(0, Size::BYTE).unwrap(), 0x22);
    assert_eq!(mem.complete_write(), Err(MemError::NoPendingStore));
    assert_eq!(mem.queue_write(100, 1, Size::WORD), Err(MemError::OutOfBounds));
}

/// Little-endian byte order: the least significant byte is stored at the
/// lowest address.
#[test]
fn word_bytes_are_little_endian() {
    let mut mem = Memory::new(8usize);
    mem.write(0, 0x0403_0201, Size::WORD).unwrap();
    assert_eq!(mem.read(0, Size::BYTE).unwrap(), 1);
    assert_eq!(mem.read(1, Size::BYTE).unwrap(), 2);
    assert_eq!(mem.read(2, Size::BYTE).unwrap(), 3);
    assert_eq!(mem.read(3, Size::BYTE).unwrap(), 4);
    assert_eq!(mem.read(1, Size::HALF).unwrap(), 0x0302);
}
