use cupana::bus::{Rom, MMIO_BASE, MMIO_END, RAM_BASE, RAM_END, ROM_BASE, ROM_END, ROM_SIZE, STACK_BASE, STACK_END};
use cupana::error::MemoryError;
use cupana::memory::Memory;

#[test]
fn test_new_memory_is_zeroed() {
    let mem = Memory::new();
    assert!((ROM_BASE..=ROM_END).all(|a| mem.read_u8(a) == 0));
    assert!((RAM_BASE..=RAM_END).all(|a| mem.read_u8(a) == 0));
    assert!((MMIO_BASE..=MMIO_END).all(|a| mem.read_u8(a) == 0));
}

#[test]
fn memory_test_load_rom() {
    let mut mem = Memory::new();
    let rom_data = (0..ROM_SIZE as usize).map(|i| (i % 256) as u8).collect::<Vec<u8>>();
    assert!(mem.load_rom(&rom_data).is_ok());
    let loaded: Vec<u8> = (ROM_BASE..=ROM_END).map(|a| mem.read_u8(a)).collect();
    assert_eq!(&loaded[..], &rom_data[..]);
}

#[test]
fn test_read_write_ram() {
    let mut mem = Memory::new();
    assert!(mem.write_u8(RAM_BASE, 0xAB).is_ok());
    assert!(mem.write_u8(RAM_END, 0xCD).is_ok());
    assert_eq!(mem.read_u8(RAM_BASE), 0xAB);
    assert_eq!(mem.read_u8(RAM_END), 0xCD);
}

#[test]
fn test_read_write_stack() {
    let mut mem = Memory::new();
    assert!(mem.write_u8(STACK_BASE, 0x56).is_ok());
    assert!(mem.write_u8(STACK_END, 0x78).is_ok());
    assert_eq!(mem.read_u8(STACK_BASE), 0x56);
    assert_eq!(mem.read_u8(STACK_END), 0x78);
}

#[test]
fn test_read_write_device() {
    let mut mem = Memory::new();
    assert!(mem.write_u8(MMIO_BASE, 0x12).is_ok());
    assert!(mem.write_u8(MMIO_END, 0x34).is_ok());
    assert_eq!(mem.read_u8(MMIO_BASE), 0x12);
    assert_eq!(mem.read_u8(MMIO_END), 0x34);
}

#[test]
fn test_read_rom() {
    let mut mem = Memory::new();
    let mut rom = vec![0u8; ROM_SIZE as usize];
    rom[0] = 0xFE;
    rom[ROM_SIZE as usize - 1] = 0xED;
    assert!(mem.load_rom(&rom).is_ok());
    assert_eq!(mem.read_u8(ROM_BASE), 0xFE);
    assert_eq!(mem.read_u8(ROM_END), 0xED);
}

#[test]
fn write_to_rom_is_refused() {
    let mut mem = Memory::new();
    assert_eq!(mem.write_u8(ROM_BASE, 0xFF), Err(MemoryError::WriteNotPermitted(ROM_BASE)));
    assert_eq!(mem.read_u8(ROM_BASE), 0);
}

#[test]
fn test_read_u16_little_endian() {
    let mut mem = Memory::new();
    assert!(mem.write_u8(RAM_BASE, 0xBA).is_ok());
    assert!(mem.write_u8(RAM_BASE + 1, 0xCD).is_ok());
    assert_eq!(mem.read_u16(RAM_BASE), 0xCDBA);
}

#[test]
fn memory_word_write_splits_bytes() {
    let mut mem = Memory::new();
    assert!(mem.write_u16(RAM_BASE, 0x1234).is_ok());
    assert_eq!(mem.read_u8(RAM_BASE), 0x34);
    assert_eq!(mem.read_u8(RAM_BASE + 1), 0x12);
    assert_eq!(mem.write_u16(ROM_END, 1), Err(MemoryError::WriteNotPermitted(ROM_END)));
}

#[test]
fn oversized_rom_is_refused() {
    let mut mem = Memory::new();
    let big = vec![1u8; ROM_SIZE as usize + 1];
    assert_eq!(mem.load_rom(&big), Err(MemoryError::InvalidRomSize(ROM_SIZE as usize + 1)));
    assert_eq!(mem.read_u8(0), 0);
}

#[test]
fn rom_test_load_rom() {
    let mut rom = Rom::new();
    let data = [0, 1, 2, 3];
    assert!(rom.load(&data).is_ok());
    assert_eq!(rom.len(), ROM_SIZE as usize);
    assert_eq!(rom.read_u8(3), 3);
}
