use chip8::error::{Fault, LoadError};
use chip8::font::FONT_SET;
use chip8::memory::{Memory, MEMORY_SIZE, PROGRAM_START, PROGRAM_START_ETI, RESERVED_START};

#[test]
fn constants_of_the_memory_map() {
    assert_eq!(MEMORY_SIZE, 4096);
    assert_eq!(RESERVED_START, 0);
    assert_eq!(PROGRAM_START, 0x200);
    assert_eq!(PROGRAM_START_ETI, 0x600);
}

#[test]
fn new_memory_holds_the_font_and_zeros() {
    let memory = Memory::new();
    for a in 0..80 {
        assert_eq!(memory.ram[a], FONT_SET[a]);
    }
    for a in 80..MEMORY_SIZE {
        assert_eq!(memory.ram[a], 0);
    }
    assert_eq!(&memory.ram[0..5], &[0xF0, 0x90, 0x90, 0x90, 0xF0]);
    assert_eq!(&memory.ram[75..80], &[0xF0, 0x80, 0xF0, 0x80, 0x80]);
}

#[test]
fn load_copies_the_program_to_the_program_start() {
    let mut memory = Memory::new();
    assert_eq!(memory.load(&[0x00, 0xE0, 0x6A, 0x02]), Ok(()));
    assert_eq!(&memory.ram[0x200..0x204], &[0x00, 0xE0, 0x6A, 0x02]);
    assert_eq!(memory.ram[0x1FF], 0);
    assert_eq!(memory.ram[0x204], 0);
    for a in 0..80 {
        assert_eq!(memory.ram[a], FONT_SET[a]);
    }
}

#[test]
fn load_of_an_empty_program_changes_nothing() {
    let mut memory = Memory::new();
    let before = memory.ram;
    assert_eq!(memory.load(&[]), Ok(()));
    assert_eq!(memory.ram, before);
}

#[test]
fn load_takes_a_program_that_fills_memory() {
    let mut memory = Memory::new();
    let rom = vec![0xAB; 4096 - 0x200];
    assert_eq!(memory.load(&rom), Ok(()));
    assert_eq!(memory.ram[0x200], 0xAB);
    assert_eq!(memory.ram[4095], 0xAB);
    assert_eq!(memory.ram[0x1FF], 0);
}

#[test]
fn load_refuses_a_program_that_is_one_byte_too_long() {
    let mut memory = Memory::new();
    let before = memory.ram;
    let rom = vec![0xAB; 4096 - 0x200 + 1];
    assert_eq!(memory.load(&rom), Err(LoadError::TooLarge));
    assert_eq!(memory.ram, before);
}

#[test]
fn load_rom_does_what_load_does() {
    let mut memory = Memory::new();
    assert_eq!(memory.load_rom(&[1, 2, 3]), Ok(()));
    assert_eq!(&memory.ram[0x200..0x203], &[1, 2, 3]);
    let big = vec![0; 4000];
    assert_eq!(memory.load_rom(&big), Err(LoadError::TooLarge));
    assert_eq!(&memory.ram[0x200..0x203], &[1, 2, 3]);
}

#[test]
fn a_second_load_overwrites_the_first() {
    let mut memory = Memory::new();
    assert_eq!(memory.load(&[1, 2, 3, 4]), Ok(()));
    assert_eq!(memory.load(&[9, 8]), Ok(()));
    assert_eq!(&memory.ram[0x200..0x204], &[9, 8, 3, 4]);
}

#[test]
fn fetch_reads_a_big_endian_word() {
    let mut memory = Memory::new();
    memory.load(&[0x12, 0x34, 0xAB, 0xCD]).unwrap();
    assert_eq!(memory.fetch(0x200).unwrap().opcode, 0x1234);
    assert_eq!(memory.fetch(0x201).unwrap().opcode, 0x34AB);
    assert_eq!(memory.fetch(0x202).unwrap().opcode, 0xABCD);
    assert_eq!(memory.fetch(0).unwrap().opcode, 0xF090);
}

#[test]
fn fetch_stops_at_the_last_word_of_memory() {
    let mut memory = Memory::new();
    memory.ram[4094] = 0x6A;
    memory.ram[4095] = 0x02;
    assert_eq!(memory.fetch(4094).unwrap().opcode, 0x6A02);
    assert_eq!(memory.fetch(4095), Err(Fault::FetchOutOfBounds));
    assert_eq!(memory.fetch(4096), Err(Fault::FetchOutOfBounds));
    assert_eq!(memory.fetch(usize::MAX), Err(Fault::FetchOutOfBounds));
}

#[test]
fn snapshot_lists_every_word() {
    let mut memory = Memory::new();
    memory.load(&[0x12, 0x34]).unwrap();
    let snapshot = memory.get_debug();
    assert_eq!(snapshot.ram.len(), 4096);
    assert_eq!(&snapshot.ram[..], &memory.ram[..]);
    assert_eq!(snapshot.disassembly.len(), 2048);
    assert_eq!(snapshot.disassembly[0].0, 0);
    assert_eq!(snapshot.disassembly[0].1.opcode, 0xF090);
    assert_eq!(snapshot.disassembly[0x100].0, 0x200);
    assert_eq!(snapshot.disassembly[0x100].1.opcode, 0x1234);
    assert_eq!(snapshot.disassembly[2047].0, 4094);
    assert_eq!(snapshot.disassembly[2047].1.opcode, 0);
}
