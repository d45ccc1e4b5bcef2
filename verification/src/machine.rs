//! The instruction set, as a function on the state of the machine.
//!
//! Nothing here is executed: [`step`] says what one instruction does to a
//! [`Machine`], the interpreter is proved to do the same, and the laws at
//! the end are proved of `step` itself.

use vstd::prelude::*;
use crate::display::{blit, blit_collides, lemma_blit_len};
use crate::error::Fault;
use crate::instruction::{Instruction, Operation};
use crate::keypad::{is_lowest_pressed, lemma_lowest_pressed, lowest_pressed};
use crate::memory::word_at;

verus! {

/// The state that instructions read and change: registers, stack, timers,
/// memory and display.
#[verifier::ext_equal]
pub struct Machine {
    /// The general registers `V0` to `VF`. `VF` is also the flag that
    /// arithmetic and drawing set.
    pub v: Seq<u8>,
    /// The address register `I`.
    pub i: u16,
    /// The program counter.
    pub pc: u16,
    /// The call stack: return addresses, the oldest first.
    pub stack: Seq<u16>,
    /// The number of return addresses on the stack.
    pub sp: int,
    /// The delay timer.
    pub dt: u8,
    /// The sound timer.
    pub st: u8,
    /// Memory, by address.
    pub ram: Seq<u8>,
    /// The display's pixels, row by row.
    pub pixels: Seq<bool>,
}

impl Machine {
    /// Whether every part has its size and the stack pointer is in range.
    pub open spec fn wf(self) -> bool {
        &&& self.v.len() == 16
        &&& self.stack.len() == 16
        &&& 0 <= self.sp <= 16
        &&& self.ram.len() == 4096
        &&& self.pixels.len() == 2048
    }

    /// The instruction that the program counter points at.
    pub open spec fn next_instruction(self) -> Instruction {
        Instruction::decode(word_at(self.ram, self.pc as int))
    }

    /// The machine with the program counter moved on by `words`
    /// instruction words.
    pub open spec fn advance(self, words: int) -> Machine {
        Machine { pc: (self.pc + 2 * words) as u16, ..self }
    }

    /// The machine with register `x` set to `value`.
    pub open spec fn with_register(self, x: int, value: u8) -> Machine {
        Machine { v: self.v.update(x, value), ..self }
    }

    /// The machine after an operation that leaves a flag: first register
    /// `x` is set to the value, then `VF` to the flag. Where `x` is 15 the
    /// flag is what stays: `VF` holds the flag after every such operation.
    pub open spec fn with_register_and_flag(self, x: int, value: u8, flag: u8) -> Machine {
        self.with_register(x, value).with_register(15, flag)
    }

    /// The machine with the next instruction skipped if `condition` holds.
    pub open spec fn skip_if(self, condition: bool) -> Machine {
        if condition {
            self.advance(1)
        } else {
            self
        }
    }

    /// The machine after both timers have counted down by one, where they
    /// were not zero.
    pub open spec fn count_down(self) -> Machine {
        Machine {
            dt: if self.dt > 0 { (self.dt - 1) as u8 } else { 0 },
            st: if self.st > 0 { (self.st - 1) as u8 } else { 0 },
            ..self
        }
    }
}

/// The fault that keeps the machine from performing the operation, if there
/// is one.
pub open spec fn fault_of(m: Machine, instruction: Instruction, operation: Operation) -> Option<Fault> {
    match operation {
        Operation::Return => if m.sp == 0 {
            Some(Fault::StackUnderflow)
        } else {
            None
        },
        Operation::Call => if m.sp >= 16 {
            Some(Fault::StackOverflow)
        } else {
            None
        },
        Operation::Draw => if m.i + instruction.n > 4096 {
            Some(Fault::AddressOutOfBounds)
        } else {
            None
        },
        Operation::SkipIfKey | Operation::SkipIfNotKey => if m.v[instruction.x as int] >= 16 {
            Some(Fault::KeyOutOfRange)
        } else {
            None
        },
        Operation::StoreDecimal => if m.i + 2 >= 4096 {
            Some(Fault::AddressOutOfBounds)
        } else {
            None
        },
        Operation::StoreRegisters | Operation::LoadRegisters => if m.i + instruction.x >= 4096 {
            Some(Fault::AddressOutOfBounds)
        } else {
            None
        },
        _ => None,
    }
}

/// The machine after the operation, which meets no fault. The program
/// counter was at the instruction and is moved past it first. `random` is
/// the byte that the random operation draws.
pub open spec fn perform(
    m: Machine,
    instruction: Instruction,
    operation: Operation,
    keys: Seq<bool>,
    random: u8,
) -> Machine {
    let x = instruction.x as int;
    let vx = m.v[x];
    let vy = m.v[instruction.y as int];
    let nn = instruction.nn;
    let nnn = instruction.nnn;
    let m = m.advance(1);
    match operation {
        Operation::ClearDisplay => Machine { pixels: Seq::new(2048, |p: int| false), ..m },
        Operation::Return => Machine { sp: m.sp - 1, pc: m.stack[m.sp - 1], ..m },
        Operation::Jump => Machine { pc: nnn, ..m },
        Operation::Call => Machine { stack: m.stack.update(m.sp, m.pc), sp: m.sp + 1, pc: nnn, ..m },
        Operation::SkipIfEqualByte => m.skip_if(vx == nn),
        Operation::SkipIfNotEqualByte => m.skip_if(vx != nn),
        Operation::SkipIfEqual => m.skip_if(vx == vy),
        Operation::SkipIfNotEqual => m.skip_if(vx != vy),
        Operation::LoadByte => m.with_register(x, nn),
        Operation::AddByte => m.with_register(x, ((vx + nn) % 256) as u8),
        Operation::Move => m.with_register(x, vy),
        Operation::Or => m.with_register(x, vx | vy),
        Operation::And => m.with_register(x, vx & vy),
        Operation::Xor => m.with_register(x, vx ^ vy),
        Operation::Add => m.with_register_and_flag(
            x,
            ((vx + vy) % 256) as u8,
            if vx + vy > 255 { 1 } else { 0 },
        ),
        Operation::Subtract => m.with_register_and_flag(
            x,
            ((vx - vy) % 256) as u8,
            if vx >= vy { 1 } else { 0 },
        ),
        Operation::SubtractFrom => m.with_register_and_flag(
            x,
            ((vy - vx) % 256) as u8,
            if vy >= vx { 1 } else { 0 },
        ),
        Operation::ShiftRight => m.with_register_and_flag(x, vx / 2, vx % 2),
        Operation::ShiftLeft => m.with_register_and_flag(x, ((vx * 2) % 256) as u8, vx / 128),
        Operation::LoadAddress => Machine { i: nnn, ..m },
        Operation::JumpOffset => Machine { pc: (nnn + m.v[0]) as u16, ..m },
        Operation::Random => m.with_register(x, random & nn),
        Operation::Draw => {
            let sprite = m.ram.subrange(m.i as int, m.i + instruction.n);
            let collision = blit_collides(m.pixels, vx as int, vy as int, sprite);
            Machine { pixels: blit(m.pixels, vx as int, vy as int, sprite), ..m }.with_register(
                15,
                if collision { 1u8 } else { 0u8 },
            )
        },
        Operation::SkipIfKey => m.skip_if(keys[vx as int]),
        Operation::SkipIfNotKey => m.skip_if(!keys[vx as int]),
        Operation::ReadDelay => m.with_register(x, m.dt),
        Operation::WaitKey => match lowest_pressed(keys) {
            Some(key) => m.with_register(x, key as u8),
            None => m.advance(-1),
        },
        Operation::SetDelay => Machine { dt: vx, ..m },
        Operation::SetSound => Machine { st: vx, ..m },
        Operation::AddAddress => Machine { i: ((m.i + vx) % 0x1_0000) as u16, ..m },
        Operation::FontAddress => Machine { i: (5 * vx) as u16, ..m },
        Operation::StoreDecimal => Machine {
            ram: m.ram.update(m.i as int, vx / 100 % 10).update(m.i + 1, vx / 10 % 10).update(
                m.i + 2,
                vx % 10,
            ),
            ..m
        },
        Operation::StoreRegisters => Machine {
            ram: Seq::new(
                4096,
                |a: int| if m.i <= a <= m.i + x { m.v[a - m.i] } else { m.ram[a] },
            ),
            ..m
        },
        Operation::LoadRegisters => Machine {
            v: Seq::new(16, |k: int| if k <= x { m.ram[m.i + k] } else { m.v[k] }),
            ..m
        },
    }
}

/// One step of the machine: the instruction at the program counter is
/// fetched, decoded and executed. Where that cannot be done the step is a
/// fault, and leaves nothing changed.
pub open spec fn step(m: Machine, keys: Seq<bool>, random: u8) -> Result<Machine, Fault> {
    if m.pc >= 4095 {
        Err(Fault::FetchOutOfBounds)
    } else {
        let instruction = m.next_instruction();
        match instruction.spec_operation() {
            None => Err(Fault::UnknownOpcode(instruction.opcode)),
            Some(operation) => match fault_of(m, instruction, operation) {
                Some(fault) => Err(fault),
                None => Ok(perform(m, instruction, operation, keys, random)),
            },
        }
    }
}

/// Whether the next step of the machine draws a random byte.
pub open spec fn draws_random(m: Machine) -> bool {
    m.pc < 4095 && m.next_instruction().spec_operation() == Some(Operation::Random)
}

/// A step that draws no random byte is the same whatever byte is at hand.
pub proof fn lemma_random_only_when_drawn(m: Machine, keys: Seq<bool>, first: u8, second: u8)
    requires
        !draws_random(m),
    ensures
        step(m, keys, first) == step(m, keys, second),
{
}

/// A step leaves every part of the machine with its size, and the stack
/// pointer within the stack.
pub proof fn lemma_step_keeps_wf(m: Machine, keys: Seq<bool>, random: u8)
    requires
        m.wf(),
        keys.len() == 16,
    ensures
        match step(m, keys, random) {
            Ok(next) => next.wf(),
            Err(_) => true,
        },
{
    if m.pc < 4095 {
        let instruction = m.next_instruction();
        match instruction.spec_operation() {
            Some(operation) => {
                if fault_of(m, instruction, operation) is None {
                    let next = perform(m, instruction, operation, keys, random);
                    assert(next.v.len() == 16);
                    assert(next.stack.len() == 16);
                    assert(next.ram.len() == 4096);
                    assert(next.pixels.len() == 2048) by {
                        if operation is Draw {
                            let sprite = m.ram.subrange(m.i as int, m.i + instruction.n);
                            lemma_blit_len(
                                m.pixels,
                                m.v[instruction.x as int] as int,
                                m.v[instruction.y as int] as int,
                                sprite,
                            );
                        }
                    }
                }
            },
            None => {},
        }
    }
}

/// The flag that arithmetic on two registers leaves in `VF`, whatever the
/// destination register is: addition sets it on a carry; both
/// subtractions set it where there was no borrow, that is where the
/// minuend was not less than the subtrahend; the shifts set it to the bit
/// that was shifted out. The destination holds the result unless it is `VF`
/// itself, where the flag, written last, is what stays.
pub proof fn lemma_flag_polarity(
    m: Machine,
    instruction: Instruction,
    operation: Operation,
    keys: Seq<bool>,
    random: u8,
)
    requires
        m.wf(),
        instruction.x < 16,
        instruction.y < 16,
    ensures
        ({
            let x = instruction.x as int;
            let vx = m.v[x];
            let vy = m.v[instruction.y as int];
            let after = perform(m, instruction, operation, keys, random);
            let flag = after.v[15];
            let result = after.v[x];
            &&& operation is Add ==> flag == (if vx + vy > 255 { 1u8 } else { 0u8 }) && (x != 15
                ==> result == (vx + vy) % 256)
            &&& operation is Subtract ==> flag == (if vx >= vy { 1u8 } else { 0u8 }) && (x != 15
                ==> result == (vx - vy) % 256)
            &&& operation is SubtractFrom ==> flag == (if vy >= vx { 1u8 } else { 0u8 }) && (x
                != 15 ==> result == (vy - vx) % 256)
            &&& operation is ShiftRight ==> flag == vx % 2 && (x != 15 ==> result == vx / 2)
            &&& operation is ShiftLeft ==> flag == vx / 128 && (x != 15 ==> result == (vx * 2)
                % 256)
            &&& (operation is Add || operation is Subtract || operation is SubtractFrom
                || operation is ShiftRight || operation is ShiftLeft) ==> forall|k: int|
                0 <= k < 15 && k != x ==> after.v[k] == m.v[k]
        }),
{
}

/// The instruction that waits for a key, with the program counter on it:
/// while no key is pressed a step leaves the whole machine as it is, the
/// program counter too, so that the next step polls again; with a key
/// pressed, the step stores the lowest pressed key's index in `Vx` and
/// moves on to the next instruction.
pub proof fn lemma_key_wait(m: Machine, keys: Seq<bool>, random: u8)
    requires
        m.wf(),
        keys.len() == 16,
        m.pc < 4095,
        m.next_instruction().spec_operation() == Some(Operation::WaitKey),
    ensures
        (forall|k: int| 0 <= k < 16 ==> !keys[k]) ==> step(m, keys, random) == Ok::<Machine, Fault>(m),
        forall|k: int|
            is_lowest_pressed(keys, k) ==> step(m, keys, random) == Ok::<Machine, Fault>(
                Machine { pc: (m.pc + 2) as u16, ..m }.with_register(
                    m.next_instruction().x as int,
                    k as u8,
                ),
            ),
{
    lemma_lowest_pressed(keys);
    let instruction = m.next_instruction();
    if forall|k: int| 0 <= k < 16 ==> !keys[k] {
        assert(lowest_pressed(keys) is None);
        assert(perform(m, instruction, Operation::WaitKey, keys, random) =~= m);
    }
}

} // verus!
