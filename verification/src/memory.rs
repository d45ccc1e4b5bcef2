//! The machine's 4 KiB of memory.

use vstd::prelude::*;
use vstd::slice::slice_to_vec;
use crate::error::{Fault, LoadError};
use crate::font::FONT_SET;
use crate::instruction::Instruction;

verus! {

/// Bytes of memory.
pub const MEMORY_SIZE: usize = 4096;

/// Where the reserved region, which holds the font, starts.
pub const RESERVED_START: usize = 0;

/// Where a program is loaded and starts to run.
pub const PROGRAM_START: usize = 0x200;

/// Where a program for the ETI 660 starts.
pub const PROGRAM_START_ETI: usize = 0x600;

/// Memory before any program is loaded: the font at the start of the
/// reserved region, zero everywhere else.
pub open spec fn initial_ram() -> Seq<u8> {
    Seq::new(MEMORY_SIZE as nat, |a: int| if a < 80 { FONT_SET[a] } else { 0u8 })
}

/// Memory with `rom` copied to the program start.
pub open spec fn loaded(ram: Seq<u8>, rom: Seq<u8>) -> Seq<u8> {
    Seq::new(
        ram.len(),
        |a: int| if PROGRAM_START <= a < PROGRAM_START + rom.len() { rom[a - PROGRAM_START] } else { ram[a] },
    )
}

/// The big-endian word in the two bytes at `at` and `at + 1`.
pub open spec fn word_at(ram: Seq<u8>, at: int) -> u16 {
    (ram[at] * 0x100 + ram[at + 1]) as u16
}

/// The machine's memory.
pub struct Memory {
    pub ram: [u8; MEMORY_SIZE],
}

/// A snapshot of memory: its bytes, and the instruction word at every even
/// address with that address.
pub struct MemoryDebug {
    pub ram: Vec<u8>,
    pub disassembly: Vec<(u16, Instruction)>,
}

impl View for Memory {
    type V = Seq<u8>;

    /// The bytes, by address: 4096 of them.
    open spec fn view(&self) -> Seq<u8> {
        self.ram@
    }
}

impl Memory {
    /// Memory that holds the font and no program.
    pub fn new() -> (memory: Memory)
        ensures
            memory@ == initial_ram(),
    {
        let mut ram = [0u8; MEMORY_SIZE];
        let mut n: usize = 0;
        while n < 80
            invariant
                n <= 80,
                forall|a: int| 0 <= a < n ==> ram@[a] == FONT_SET[a],
                forall|a: int| n <= a < MEMORY_SIZE ==> ram@[a] == 0,
            decreases 80 - n,
        {
            ram[RESERVED_START + n] = FONT_SET[n];
            n += 1;
        }
        assert(ram@ =~= initial_ram());
        Memory { ram }
    }

    /// Copies a program to the program start. A program that does not fit
    /// between there and the end of memory is refused, and memory is left
    /// as it was.
    pub fn load(&mut self, rom: &[u8]) -> (result: Result<(), LoadError>)
        ensures
            rom@.len() <= MEMORY_SIZE - PROGRAM_START ==> result == Ok::<(), LoadError>(())
                && final(self)@ == loaded(old(self)@, rom@),
            rom@.len() > MEMORY_SIZE - PROGRAM_START ==> result == Err::<(), LoadError>(
                LoadError::TooLarge,
            ) && final(self)@ == old(self)@,
    {
        if rom.len() > MEMORY_SIZE - PROGRAM_START {
            return Err(LoadError::TooLarge);
        }
        let mut n: usize = 0;
        while n < rom.len()
            invariant
                n <= rom.len() <= MEMORY_SIZE - PROGRAM_START,
                self@ == loaded(old(self)@, rom@.take(n as int)),
            decreases rom.len() - n,
        {
            self.ram[PROGRAM_START + n] = rom[n];
            n += 1;
        }
        assert(rom@.take(rom.len() as int) == rom@);
        Ok(())
    }

    /// Copies a program to the program start, as [`Memory::load`] does.
    pub fn load_rom(&mut self, rom: &[u8]) -> (result: Result<(), LoadError>)
        ensures
            rom@.len() <= MEMORY_SIZE - PROGRAM_START ==> result == Ok::<(), LoadError>(())
                && final(self)@ == loaded(old(self)@, rom@),
            rom@.len() > MEMORY_SIZE - PROGRAM_START ==> result == Err::<(), LoadError>(
                LoadError::TooLarge,
            ) && final(self)@ == old(self)@,
    {
        self.load(rom)
    }

    /// Reads the instruction word at `at`: the byte there is its high
    /// half, the next byte its low half. The last address that holds a word
    /// is 4094.
    pub fn fetch(&self, at: usize) -> (result: Result<Instruction, Fault>)
        ensures
            at < MEMORY_SIZE - 1 ==> result == Ok::<Instruction, Fault>(
                Instruction::decode(word_at(self@, at as int)),
            ),
            at >= MEMORY_SIZE - 1 ==> result == Err::<Instruction, Fault>(Fault::FetchOutOfBounds),
    {
        if at >= MEMORY_SIZE - 1 {
            return Err(Fault::FetchOutOfBounds);
        }
        let high = self.ram[at];
        let low = self.ram[at + 1];
        assert((high as u16) << 8 | (low as u16) == (high * 0x100 + low) as u16) by (bit_vector);
        Ok(Instruction::new((high as u16) << 8 | (low as u16)))
    }

    /// The bytes of memory, copied, and all of memory read as a row of
    /// instruction words.
    pub fn get_debug(&self) -> (snapshot: MemoryDebug)
        ensures
            snapshot.ram@ == self@,
            snapshot.disassembly@.len() == MEMORY_SIZE / 2,
            forall|k: int|
                0 <= k < MEMORY_SIZE / 2 ==> #[trigger] snapshot.disassembly@[k] == (
                    (2 * k) as u16,
                    Instruction::decode(word_at(self@, 2 * k)),
                ),
    {
        let mut disassembly: Vec<(u16, Instruction)> = Vec::new();
        let mut n: usize = 0;
        while n < MEMORY_SIZE
            invariant
                n <= MEMORY_SIZE,
                n % 2 == 0,
                disassembly@.len() == n / 2,
                forall|k: int|
                    0 <= k < n / 2 ==> #[trigger] disassembly@[k] == (
                        (2 * k) as u16,
                        Instruction::decode(word_at(self@, 2 * k)),
                    ),
            decreases MEMORY_SIZE - n,
        {
            match self.fetch(n) {
                Ok(instruction) => disassembly.push((n as u16, instruction)),
                Err(_) => {},
            }
            n += 2;
        }
        MemoryDebug { ram: slice_to_vec(self.ram.as_slice()), disassembly }
    }
}

} // verus!
