//! The machine without a clock: its driver decides when an instruction
//! runs and when the timers count down.

use vstd::prelude::*;
use crate::cpu::{machine, stepped, Cpu, CpuDebug};
use crate::display::{rgba, Display, VRAM_SIZE};
use crate::error::{Fault, LoadError};
use crate::instruction::Instruction;
use crate::keypad::{Keypad, KeypadDebug, KEY_COUNT};
use crate::machine::{draws_random, Machine};
use crate::memory::{initial_ram, loaded, Memory, MEMORY_SIZE, PROGRAM_START};

verus! {

/// The state of a [`Chip8`]: the machine and the keys.
pub struct Chip8State {
    pub machine: Machine,
    pub keys: Seq<bool>,
}

impl Chip8State {
    /// The state of a machine that was made with the program `rom` and
    /// has not run yet.
    pub open spec fn initial(rom: Seq<u8>) -> Chip8State {
        Chip8State {
            machine: Machine {
                v: Seq::new(16, |k: int| 0u8),
                i: 0,
                pc: PROGRAM_START as u16,
                stack: Seq::new(16, |k: int| 0u16),
                sp: 0,
                dt: 0,
                st: 0,
                ram: loaded(initial_ram(), rom),
                pixels: Seq::new(VRAM_SIZE as nat, |p: int| false),
            },
            keys: Seq::new(KEY_COUNT as nat, |k: int| false),
        }
    }
}

/// A processor with its memory, display and keypad.
pub struct Chip8 {
    cpu: Cpu,
    memory: Memory,
    display: Display,
    keypad: Keypad,
}

/// A snapshot of a [`Chip8`]: its processor and its keypad.
#[derive(Clone, Copy, Debug, PartialEq, Eq)]
pub struct Chip8Debug {
    cpu: CpuDebug,
    keypad: KeypadDebug,
}

impl Chip8Debug {
    /// The processor's part of the snapshot.
    pub closed spec fn spec_cpu(&self) -> CpuDebug {
        self.cpu
    }

    /// The keypad's part of the snapshot.
    pub closed spec fn spec_keypad(&self) -> KeypadDebug {
        self.keypad
    }

    /// The processor's part of the snapshot.
    #[verifier::when_used_as_spec(spec_cpu)]
    pub fn cpu(&self) -> (cpu: CpuDebug)
        ensures
            cpu == self.spec_cpu(),
    {
        self.cpu
    }

    /// The keypad's part of the snapshot.
    #[verifier::when_used_as_spec(spec_keypad)]
    pub fn keypad(&self) -> (keypad: KeypadDebug)
        ensures
            keypad == self.spec_keypad(),
    {
        self.keypad
    }
}

impl View for Chip8 {
    type V = Chip8State;

    closed spec fn view(&self) -> Chip8State {
        Chip8State { machine: machine(self.cpu, self.memory, self.display), keys: self.keypad@ }
    }
}

impl Chip8 {
    /// Whether the machine is well formed. Every machine that
    /// [`Chip8::new`] makes is, and every method keeps it so.
    pub open spec fn wf(&self) -> bool {
        self@.machine.wf() && self@.keys.len() == KEY_COUNT
    }

    /// A machine with the font and the program `rom` in memory, ready to
    /// run it from the program start. A program that does not fit in
    /// memory is refused.
    pub fn new(rom: &[u8]) -> (result: Result<Chip8, LoadError>)
        ensures
            rom@.len() <= MEMORY_SIZE - PROGRAM_START ==> result is Ok && result->Ok_0@
                == Chip8State::initial(rom@) && result->Ok_0.wf(),
            rom@.len() > MEMORY_SIZE - PROGRAM_START ==> result is Err && result->Err_0
                == LoadError::TooLarge,
    {
        let mut emulator = Chip8 {
            cpu: Cpu::new(),
            memory: Memory::new(),
            display: Display::new(),
            keypad: Keypad::new(),
        };
        match emulator.memory.load(rom) {
            Ok(()) => {
                assert(emulator@.machine =~= Chip8State::initial(rom@).machine);
                Ok(emulator)
            },
            Err(error) => Err(error),
        }
    }

    /// Executes the next instruction and returns it. An instruction that
    /// cannot be executed is a fault: it is returned, and the machine is
    /// left as it was.
    pub fn cycle_cpu(&mut self) -> (result: Result<Instruction, Fault>)
        requires
            old(self).wf(),
        ensures
            final(self).wf(),
            final(self)@.keys == old(self)@.keys,
            exists|random: u8|
                stepped(old(self)@.machine, old(self)@.keys, random, result, final(self)@.machine),
            !draws_random(old(self)@.machine) ==> stepped(
                old(self)@.machine,
                old(self)@.keys,
                0,
                result,
                final(self)@.machine,
            ),
    {
        self.cpu.cycle(&mut self.memory, &mut self.display, &self.keypad)
    }

    /// Executes the next instruction with `random` as the byte that the
    /// random operation would draw.
    pub fn cycle_cpu_with(&mut self, random: u8) -> (result: Result<Instruction, Fault>)
        requires
            old(self).wf(),
        ensures
            final(self).wf(),
            final(self)@.keys == old(self)@.keys,
            stepped(old(self)@.machine, old(self)@.keys, random, result, final(self)@.machine),
    {
        self.cpu.cycle_with(random, &mut self.memory, &mut self.display, &self.keypad)
    }

    /// Counts both timers down by one, where they are not zero.
    pub fn cycle_timers(&mut self)
        ensures
            final(self)@ == (Chip8State { machine: old(self)@.machine.count_down(), ..old(self)@ }),
    {
        self.cpu.cycle_timers();
        assert(self@.machine =~= old(self)@.machine.count_down());
    }

    /// Whether the buzzer sounds: it does while the sound timer is not zero.
    pub fn beep(&self) -> (sounds: bool)
        ensures
            sounds == (self@.machine.st > 0),
    {
        self.cpu.beep()
    }

    /// Sets key `key` pressed or released. The keys are 0 to 15.
    pub fn update_key(&mut self, key: usize, state: bool)
        requires
            key < KEY_COUNT,
        ensures
            final(self)@ == (Chip8State {
                keys: old(self)@.keys.update(key as int, state),
                ..old(self)@
            }),
    {
        self.keypad.state[key] = state;
    }

    /// The frame on the display, as colours for a canvas: four bytes for
    /// each pixel, row by row.
    pub fn get_framebuffer(&self) -> (frame: Vec<u8>)
        ensures
            frame@ == rgba(self@.machine.pixels),
    {
        self.display.to_rgba()
    }

    /// A snapshot of the processor and the keypad.
    pub fn get_debug(&self) -> (snapshot: Chip8Debug)
        ensures
            snapshot.cpu().v@ == self@.machine.v,
            snapshot.cpu().i == self@.machine.i,
            snapshot.cpu().pc == self@.machine.pc,
            snapshot.cpu().stack@ == self@.machine.stack,
            snapshot.cpu().sp == self@.machine.sp,
            snapshot.cpu().dt == self@.machine.dt,
            snapshot.cpu().st == self@.machine.st,
            snapshot.keypad().state@ == self@.keys,
    {
        Chip8Debug { cpu: self.cpu.get_debug(), keypad: self.keypad.get_debug() }
    }
}

} // verus!
