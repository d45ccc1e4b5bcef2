//! An interpreter for the CHIP-8 virtual machine, with every function
//! verified against a mathematical model of the machine.
//!
//! The model is in [`machine`]: [`machine::step`] is the instruction set as
//! a function on the state of the machine. [`cpu::Cpu`] executes
//! instructions and is proved to do what `step` says; [`emulator::Emulator`]
//! puts processor, memory, display and keypad together and paces them with
//! a clock.
//!
//! # Faults
//!
//! An instruction that cannot be executed is a [`error::Fault`]: the
//! program counter has left memory, a call finds the stack full or a return
//! finds it empty, the word selects no operation, or the operation reaches
//! past the end of memory or asks for a key that does not exist. The policy
//! is the same for all of them. The instruction is not executed, not even
//! in part: registers, program counter, stack, timers, memory and display
//! are as they were, and the fault is returned to the caller. Since the
//! program counter stays on the instruction, a machine that has met a fault
//! meets it again at every further step, until its driver changes what
//! caused it.
//!
//! # Trace
//!
//! The functions whose name ends in `_traced` add to a trace of the
//! caller's an entry for every instruction fetched: the state of the
//! processor at the fetch. What is done with the entries is the caller's
//! business.
//!
//! # Randomness
//!
//! Only the random operation draws a random byte. The functions whose name
//! ends in `_with` take that byte from the caller and are deterministic;
//! the others draw it from the thread's generator.

pub mod chip8;
pub mod clock;
pub mod cpu;
pub mod disassembly;
pub mod display;
pub mod emulator;
pub mod error;
pub mod font;
pub mod instruction;
pub mod keypad;
pub mod machine;
pub mod memory;

pub use crate::chip8::{Chip8, Chip8Debug};
pub use crate::clock::{Clock, ClockDivider, Time, CLOCK_CPU, CLOCK_TIMER};
pub use crate::cpu::{Cpu, CpuDebug, Log};
pub use crate::disassembly::Disassembly;
pub use crate::display::{Display, DISPLAY_HEIGHT, DISPLAY_WIDTH, VRAM_SIZE};
pub use crate::emulator::Emulator;
pub use crate::error::{Fault, LoadError};
pub use crate::font::FONT_SET;
pub use crate::instruction::{Instruction, Operation};
pub use crate::keypad::{Keypad, KeypadDebug};
pub use crate::memory::{Memory, MemoryDebug, MEMORY_SIZE, PROGRAM_START, PROGRAM_START_ETI, RESERVED_START};
