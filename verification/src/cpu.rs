//! The interpreter: registers, stack and timers, and the execution of
//! instructions against memory, display and keypad.

use vstd::prelude::*;
use vstd::slice::slice_subrange;
use crate::clock::{saturate, ClockDivider, Time, CLOCK_CPU, CLOCK_TIMER};
use crate::display::Display;
use crate::error::Fault;
use crate::instruction::{Instruction, Operation};
use crate::keypad::{lemma_lowest_pressed, Keypad};
use crate::machine::{draws_random, fault_of, perform, step, Machine};
use crate::memory::{Memory, PROGRAM_START, RESERVED_START};

verus! {

/// The processor: registers, call stack, timers, and the two dividers
/// that pace instructions and timers.
pub struct Cpu {
    /// The general registers `V0` to `VF`.
    pub v: [u8; 16],
    /// The address register.
    pub i: u16,
    /// The program counter.
    pub pc: u16,
    /// The return addresses of the calls in progress.
    pub stack: [u16; 16],
    /// How many entries of the stack are in use.
    pub sp: usize,
    /// The delay timer.
    pub dt: u8,
    /// The sound timer: the buzzer sounds while it is not zero.
    pub st: u8,
    /// Paces the instructions.
    pub clock: ClockDivider,
    /// Paces the timers.
    pub clock_timer: ClockDivider,
}

/// A snapshot of the processor's registers, stack and timers.
#[derive(Clone, Copy, Debug, PartialEq, Eq)]
pub struct CpuDebug {
    pub v: [u8; 16],
    pub i: u16,
    pub pc: u16,
    pub stack: [u16; 16],
    pub sp: usize,
    pub dt: u8,
    pub st: u8,
}

/// The machine that a processor forms with a memory and a display.
pub open spec fn machine(cpu: Cpu, memory: Memory, display: Display) -> Machine {
    Machine {
        v: cpu.v@,
        i: cpu.i,
        pc: cpu.pc,
        stack: cpu.stack@,
        sp: cpu.sp as int,
        dt: cpu.dt,
        st: cpu.st,
        ram: memory@,
        pixels: display@,
    }
}

/// Whether `result` and the machine `after` are what a step with the
/// random byte `random` makes of the machine `before`: the instruction
/// executed and the machine it leaves, or the fault and the machine
/// unchanged.
pub open spec fn stepped(
    before: Machine,
    keys: Seq<bool>,
    random: u8,
    result: Result<Instruction, Fault>,
    after: Machine,
) -> bool {
    match step(before, keys, random) {
        Ok(next) => result == Ok::<Instruction, Fault>(before.next_instruction()) && after == next,
        Err(fault) => result == Err::<Instruction, Fault>(fault) && after == before,
    }
}

/// Whether a divider that is brought to the time `time` counts a new
/// cycle.
pub open spec fn is_due(divider: ClockDivider, time: Time) -> bool {
    saturate(time.cycles(divider.rate)) != divider.cycles
}

/// What a tick at the time `time` makes of the machine `before`, with the
/// dividers `clock` and `clock_timer` as they were before the tick: a step
/// if the instruction divider counts a new cycle, then a count-down of the
/// timers if the timer divider does. A fault stops the instruction, not
/// the timers.
pub open spec fn ticked(
    before: Machine,
    keys: Seq<bool>,
    random: u8,
    time: Time,
    clock: ClockDivider,
    clock_timer: ClockDivider,
) -> (Result<(), Fault>, Machine) {
    let stepped = if is_due(clock, time) {
        step(before, keys, random)
    } else {
        Ok(before)
    };
    let machine = match stepped {
        Ok(next) => next,
        Err(_) => before,
    };
    (
        match stepped {
            Ok(_) => Ok(()),
            Err(fault) => Err(fault),
        },
        if is_due(clock_timer, time) {
            machine.count_down()
        } else {
            machine
        },
    )
}

/// One entry of the execution trace: the state in which the processor
/// fetched an instruction, before it executed it.
#[derive(Clone, Copy, Debug, PartialEq, Eq)]
pub struct Log {
    /// The count of the instruction divider at the fetch.
    pub cycles: u64,
    /// The instruction fetched.
    pub instruction: Instruction,
    /// The program counter, which points at the instruction.
    pub pc: u16,
    pub sp: usize,
    pub dt: u8,
    pub st: u8,
    pub v: [u8; 16],
    pub i: u16,
}

/// What an entry of the execution trace holds.
pub struct LogView {
    pub cycles: u64,
    pub instruction: Instruction,
    pub pc: u16,
    pub sp: int,
    pub dt: u8,
    pub st: u8,
    pub v: Seq<u8>,
    pub i: u16,
}

impl View for Log {
    type V = LogView;

    open spec fn view(&self) -> LogView {
        LogView {
            cycles: self.cycles,
            instruction: self.instruction,
            pc: self.pc,
            sp: self.sp as int,
            dt: self.dt,
            st: self.st,
            v: self.v@,
            i: self.i,
        }
    }
}

/// What the entries of a trace hold, in order.
pub open spec fn views(trace: Seq<Log>) -> Seq<LogView> {
    Seq::new(trace.len(), |k: int| trace[k]@)
}

/// The entry that is written when the machine fetches its next
/// instruction while the instruction divider stands at `cycles`.
pub open spec fn fetch_log(m: Machine, cycles: u64) -> LogView {
    LogView {
        cycles,
        instruction: m.next_instruction(),
        pc: m.pc,
        sp: m.sp,
        dt: m.dt,
        st: m.st,
        v: m.v,
        i: m.i,
    }
}

/// What a tick at the time `time` adds to the trace: one entry if it
/// fetches an instruction, that is if the instruction divider counts a new
/// cycle and the program counter is within memory; nothing otherwise.
pub open spec fn tick_trace(m: Machine, time: Time, clock: ClockDivider) -> Seq<LogView> {
    if is_due(clock, time) && m.pc < 4095 {
        seq![fetch_log(m, saturate(time.cycles(clock.rate)))]
    } else {
        Seq::empty()
    }
}

/// The trace that has grown by one entry holds what it held, and what the
/// entry holds.
pub proof fn lemma_views_push(trace: Seq<Log>, entry: Log)
    ensures
        views(trace.push(entry)) == views(trace).push(entry@),
{
    assert(views(trace.push(entry)) =~= views(trace).push(entry@));
}

/// A byte from the thread's random number generator, by `rand::random`.
/// Nothing is claimed of the byte: any of the 256 values may come.
#[verifier::external_body]
fn random_byte() -> (byte: u8) {
    rand::random::<u8>()
}

/// Wrapping arithmetic on bytes is arithmetic modulo 256.
proof fn lemma_wrapping(a: u8, b: u8)
    ensures
        a.wrapping_add(b) == ((a + b) % 256) as u8,
        a.wrapping_sub(b) == ((a - b) % 256) as u8,
        a.wrapping_mul(2) == ((a * 2) % 256) as u8,
{
}

/// Copies the registers `V0` to `Vx` to memory, from address `at` on.
fn store_registers(ram: &mut [u8; 4096], v: &[u8; 16], at: usize, x: usize)
    requires
        x < 16,
        at + x < 4096,
    ensures
        final(ram)@ == Seq::new(
            4096,
            |a: int| if at <= a <= at + x { v@[a - at] } else { old(ram)@[a] },
        ),
{
    let mut n: usize = 0;
    while n <= x
        invariant
            n <= x + 1,
            x < 16,
            at + x < 4096,
            ram@ == Seq::new(4096, |a: int| if at <= a < at + n { v@[a - at] } else { old(ram)@[a] }),
        decreases x + 1 - n,
    {
        ram[at + n] = v[n];
        n += 1;
    }
}

/// Copies memory, from address `at` on, to the registers `V0` to `Vx`.
fn load_registers(v: &mut [u8; 16], ram: &[u8; 4096], at: usize, x: usize)
    requires
        x < 16,
        at + x < 4096,
    ensures
        final(v)@ == Seq::new(16, |k: int| if k <= x { ram@[at + k] } else { old(v)@[k] }),
{
    let mut n: usize = 0;
    while n <= x
        invariant
            n <= x + 1,
            x < 16,
            at + x < 4096,
            v@ == Seq::new(16, |k: int| if k < n { ram@[at + k] } else { old(v)@[k] }),
        decreases x + 1 - n,
    {
        v[n] = ram[at + n];
        n += 1;
    }
}

impl Cpu {
    /// Whether the stack pointer is within the stack.
    pub open spec fn wf(self) -> bool {
        self.sp <= 16
    }

    /// A processor at the program start, with registers, stack and timers
    /// cleared.
    pub fn new() -> (cpu: Cpu)
        ensures
            cpu.wf(),
            cpu.v@ == Seq::new(16, |k: int| 0u8),
            cpu.stack@ == Seq::new(16, |k: int| 0u16),
            cpu.i == 0,
            cpu.pc == PROGRAM_START,
            cpu.sp == 0,
            cpu.dt == 0,
            cpu.st == 0,
            cpu.clock.rate == CLOCK_CPU,
            cpu.clock.cycles == 0,
            cpu.clock_timer.rate == CLOCK_TIMER,
            cpu.clock_timer.cycles == 0,
    {
        Cpu {
            v: [0; 16],
            i: 0,
            pc: PROGRAM_START as u16,
            stack: [0; 16],
            sp: 0,
            dt: 0,
            st: 0,
            clock: ClockDivider::new(CLOCK_CPU),
            clock_timer: ClockDivider::new(CLOCK_TIMER),
        }
    }

    /// Fetches and classifies the next instruction and looks for the fault
    /// that would stop it.
    fn decode_next(&self, memory: &Memory, Ghost(display): Ghost<&Display>) -> (result: Result<
        (Instruction, Operation),
        Fault,
    >)
        requires
            self.wf(),
        ensures
            match result {
                Ok((instruction, operation)) => {
                    &&& self.pc < 4095
                    &&& instruction == machine(*self, *memory, *display).next_instruction()
                    &&& instruction.spec_operation() == Some(operation)
                    &&& fault_of(machine(*self, *memory, *display), instruction, operation)
                        == None::<Fault>
                    &&& forall|keys: Seq<bool>, random: u8|
                        #[trigger] step(machine(*self, *memory, *display), keys, random) == Ok::<
                            Machine,
                            Fault,
                        >(
                            perform(
                                machine(*self, *memory, *display),
                                instruction,
                                operation,
                                keys,
                                random,
                            ),
                        )
                },
                Err(fault) => forall|keys: Seq<bool>, random: u8|
                    #[trigger] step(machine(*self, *memory, *display), keys, random) == Err::<
                        Machine,
                        Fault,
                    >(fault),
            },
    {
        let instruction = match memory.fetch(self.pc as usize) {
            Ok(instruction) => instruction,
            Err(fault) => {
                return Err(fault);
            },
        };
        let operation = match instruction.operation() {
            Some(operation) => operation,
            None => {
                return Err(Fault::UnknownOpcode(instruction.opcode));
            },
        };
        let x = instruction.x;
        let address = self.i as usize;
        let fault = match operation {
            Operation::Return => if self.sp == 0 {
                Some(Fault::StackUnderflow)
            } else {
                None
            },
            Operation::Call => if self.sp >= 16 {
                Some(Fault::StackOverflow)
            } else {
                None
            },
            Operation::Draw => if address + instruction.n as usize > 4096 {
                Some(Fault::AddressOutOfBounds)
            } else {
                None
            },
            Operation::SkipIfKey | Operation::SkipIfNotKey => if self.v[x] >= 16 {
                Some(Fault::KeyOutOfRange)
            } else {
                None
            },
            Operation::StoreDecimal => if address + 2 >= 4096 {
                Some(Fault::AddressOutOfBounds)
            } else {
                None
            },
            Operation::StoreRegisters | Operation::LoadRegisters => if address + x >= 4096 {
                Some(Fault::AddressOutOfBounds)
            } else {
                None
            },
            _ => None,
        };
        match fault {
            Some(fault) => Err(fault),
            None => Ok((instruction, operation)),
        }
    }

    /// Executes an operation that only moves the program counter or the stack.
    fn perform_control(
        &mut self,
        instruction: Instruction,
        operation: Operation,
        Ghost(memory): Ghost<Memory>,
        Ghost(display): Ghost<Display>,
        Ghost(keys): Ghost<Seq<bool>>,
        Ghost(random): Ghost<u8>,
    )
        requires
            old(self).wf(),
            old(self).pc < 4095,
            instruction.x < 16,
            instruction.y < 16,
            instruction.nnn < 0x1000,
            instruction.spec_operation() == Some(operation),
            fault_of(machine(*old(self), memory, display), instruction, operation) == None::<Fault>,
            operation is Return
                || operation is Jump
                || operation is Call
                || operation is SkipIfEqualByte
                || operation is SkipIfNotEqualByte
                || operation is SkipIfEqual
                || operation is SkipIfNotEqual
                || operation is JumpOffset,
        ensures
            machine(*final(self), memory, display) == perform(
                machine(*old(self), memory, display),
                instruction,
                operation,
                keys,
                random,
            ),
            final(self).wf(),
            final(self).clock == old(self).clock,
            final(self).clock_timer == old(self).clock_timer,
    {
        let x = instruction.x;
        let nn = instruction.nn;
        let nnn = instruction.nnn;
        let vx = self.v[x];
        let vy = self.v[instruction.y];
        self.pc = self.pc + 2;
        match operation {
            Operation::Return => {
                self.sp = self.sp - 1;
                self.pc = self.stack[self.sp];
            },
            Operation::Jump => self.pc = nnn,
            Operation::Call => {
                self.stack[self.sp] = self.pc;
                self.sp = self.sp + 1;
                self.pc = nnn;
            },
            Operation::SkipIfEqualByte => if vx == nn {
                self.pc = self.pc + 2;
            },
            Operation::SkipIfNotEqualByte => if vx != nn {
                self.pc = self.pc + 2;
            },
            Operation::SkipIfEqual => if vx == vy {
                self.pc = self.pc + 2;
            },
            Operation::SkipIfNotEqual => if vx != vy {
                self.pc = self.pc + 2;
            },
            Operation::JumpOffset => self.pc = nnn + self.v[0] as u16,
            _ => {},
        }
        assert(machine(*self, memory, display) =~= perform(
            machine(*old(self), memory, display),
            instruction,
            operation,
            keys,
            random,
        ));
    }

    /// Executes an operation that sets one register or timer, without a flag.
    fn perform_register(
        &mut self,
        instruction: Instruction,
        operation: Operation,
        Ghost(memory): Ghost<Memory>,
        Ghost(display): Ghost<Display>,
        Ghost(keys): Ghost<Seq<bool>>,
        Ghost(random): Ghost<u8>,
    )
        requires
            old(self).wf(),
            old(self).pc < 4095,
            instruction.x < 16,
            instruction.y < 16,
            instruction.spec_operation() == Some(operation),
            fault_of(machine(*old(self), memory, display), instruction, operation) == None::<Fault>,
            operation is LoadByte
                || operation is AddByte
                || operation is Move
                || operation is Or
                || operation is And
                || operation is Xor
                || operation is ReadDelay
                || operation is SetDelay
                || operation is SetSound
                || operation is LoadAddress
                || operation is AddAddress
                || operation is FontAddress,
        ensures
            machine(*final(self), memory, display) == perform(
                machine(*old(self), memory, display),
                instruction,
                operation,
                keys,
                random,
            ),
            final(self).wf(),
            final(self).clock == old(self).clock,
            final(self).clock_timer == old(self).clock_timer,
    {
        let x = instruction.x;
        let nn = instruction.nn;
        let nnn = instruction.nnn;
        let vx = self.v[x];
        let vy = self.v[instruction.y];
        self.pc = self.pc + 2;
        match operation {
            Operation::LoadByte => self.v[x] = nn,
            Operation::AddByte => {
                proof {
                    lemma_wrapping(vx, nn);
                }
                self.v[x] = vx.wrapping_add(nn);
            },
            Operation::Move => self.v[x] = vy,
            Operation::Or => self.v[x] = vx | vy,
            Operation::And => self.v[x] = vx & vy,
            Operation::Xor => self.v[x] = vx ^ vy,
            Operation::ReadDelay => self.v[x] = self.dt,
            Operation::SetDelay => self.dt = vx,
            Operation::SetSound => self.st = vx,
            Operation::LoadAddress => self.i = nnn,
            Operation::AddAddress => self.i = self.i.wrapping_add(vx as u16),
            Operation::FontAddress => self.i = (RESERVED_START + 5 * vx as usize) as u16,
            _ => {},
        }
        assert(machine(*self, memory, display) =~= perform(
            machine(*old(self), memory, display),
            instruction,
            operation,
            keys,
            random,
        ));
    }

    /// Executes an addition or subtraction of two registers: first the
    /// result is written to `Vx`, then the flag to `VF`, so that `VF` holds
    /// the flag whatever `x` is.
    fn perform_arithmetic(
        &mut self,
        instruction: Instruction,
        operation: Operation,
        Ghost(memory): Ghost<Memory>,
        Ghost(display): Ghost<Display>,
        Ghost(keys): Ghost<Seq<bool>>,
        Ghost(random): Ghost<u8>,
    )
        requires
            old(self).wf(),
            old(self).pc < 4095,
            instruction.x < 16,
            instruction.y < 16,
            instruction.spec_operation() == Some(operation),
            fault_of(machine(*old(self), memory, display), instruction, operation) == None::<Fault>,
            operation is Add || operation is Subtract || operation is SubtractFrom,
        ensures
            machine(*final(self), memory, display) == perform(
                machine(*old(self), memory, display),
                instruction,
                operation,
                keys,
                random,
            ),
            final(self).wf(),
            final(self).clock == old(self).clock,
            final(self).clock_timer == old(self).clock_timer,
    {
        let x = instruction.x;
        let vx = self.v[x];
        let vy = self.v[instruction.y];
        self.pc = self.pc + 2;
        match operation {
            Operation::Add => {
                proof {
                    lemma_wrapping(vx, vy);
                }
                self.v[x] = vx.wrapping_add(vy);
                self.v[0xF] = if vx as u16 + vy as u16 > 0xFF { 1 } else { 0 };
            },
            Operation::Subtract => {
                proof {
                    lemma_wrapping(vx, vy);
                }
                self.v[x] = vx.wrapping_sub(vy);
                self.v[0xF] = if vx >= vy { 1 } else { 0 };
            },
            Operation::SubtractFrom => {
                proof {
                    lemma_wrapping(vy, vx);
                }
                self.v[x] = vy.wrapping_sub(vx);
                self.v[0xF] = if vy >= vx { 1 } else { 0 };
            },
            _ => {},
        }
        assert(machine(*self, memory, display) =~= perform(
            machine(*old(self), memory, display),
            instruction,
            operation,
            keys,
            random,
        ));
    }

    /// Executes a shift: first `Vx` is shifted, then the bit that was shifted
    /// out is written to `VF`.
    fn perform_shift(
        &mut self,
        instruction: Instruction,
        operation: Operation,
        Ghost(memory): Ghost<Memory>,
        Ghost(display): Ghost<Display>,
        Ghost(keys): Ghost<Seq<bool>>,
        Ghost(random): Ghost<u8>,
    )
        requires
            old(self).wf(),
            old(self).pc < 4095,
            instruction.x < 16,
            instruction.spec_operation() == Some(operation),
            fault_of(machine(*old(self), memory, display), instruction, operation) == None::<Fault>,
            operation is ShiftRight || operation is ShiftLeft,
        ensures
            machine(*final(self), memory, display) == perform(
                machine(*old(self), memory, display),
                instruction,
                operation,
                keys,
                random,
            ),
            final(self).wf(),
            final(self).clock == old(self).clock,
            final(self).clock_timer == old(self).clock_timer,
    {
        let x = instruction.x;
        let vx = self.v[x];
        self.pc = self.pc + 2;
        match operation {
            Operation::ShiftRight => {
                assert(vx & 1 == vx % 2) by (bit_vector);
                self.v[x] = vx / 2;
                self.v[0xF] = vx & 1;
            },
            Operation::ShiftLeft => {
                assert(vx >> 7 == vx / 128) by (bit_vector);
                proof {
                    lemma_wrapping(vx, 0);
                }
                self.v[x] = vx.wrapping_mul(2);
                self.v[0xF] = vx >> 7;
            },
            _ => {},
        }
        assert(machine(*self, memory, display) =~= perform(
            machine(*old(self), memory, display),
            instruction,
            operation,
            keys,
            random,
        ));
    }

    /// Executes an operation that reads or writes memory through `I`.
    fn perform_memory(
        &mut self,
        instruction: Instruction,
        operation: Operation,
        memory: &mut Memory,
        display: &mut Display,
        Ghost(keys): Ghost<Seq<bool>>,
        Ghost(random): Ghost<u8>,
    )
        requires
            old(self).wf(),
            old(self).pc < 4095,
            instruction.x < 16,
            instruction.y < 16,
            instruction.spec_operation() == Some(operation),
            fault_of(machine(*old(self), *old(memory), *old(display)), instruction, operation)
                == None::<Fault>,
            operation is Draw || operation is StoreDecimal || operation is StoreRegisters
                || operation is LoadRegisters,
        ensures
            machine(*final(self), *final(memory), *final(display)) == perform(
                machine(*old(self), *old(memory), *old(display)),
                instruction,
                operation,
                keys,
                random,
            ),
            final(self).wf(),
            final(self).clock == old(self).clock,
            final(self).clock_timer == old(self).clock_timer,
    {
        let x = instruction.x;
        let vx = self.v[x];
        let vy = self.v[instruction.y];
        let at = self.i as usize;
        self.pc = self.pc + 2;
        match operation {
            Operation::Draw => {
                let sprite = slice_subrange(memory.ram.as_slice(), at, at + instruction.n as usize);
                let collision = display.draw_sprite(vx as usize, vy as usize, sprite);
                self.v[0xF] = if collision { 1 } else { 0 };
            },
            Operation::StoreDecimal => {
                memory.ram[at] = vx / 100 % 10;
                memory.ram[at + 1] = vx / 10 % 10;
                memory.ram[at + 2] = vx % 10;
            },
            Operation::StoreRegisters => store_registers(&mut memory.ram, &self.v, at, x),
            Operation::LoadRegisters => load_registers(&mut self.v, &memory.ram, at, x),
            _ => {},
        }
        assert(machine(*self, *memory, *display) =~= perform(
            machine(*old(self), *old(memory), *old(display)),
            instruction,
            operation,
            keys,
            random,
        ));
    }

    /// Executes an operation that reads the keypad.
    fn perform_keypad(
        &mut self,
        instruction: Instruction,
        operation: Operation,
        keypad: &Keypad,
        Ghost(memory): Ghost<Memory>,
        Ghost(display): Ghost<Display>,
        Ghost(random): Ghost<u8>,
    )
        requires
            old(self).wf(),
            old(self).pc < 4095,
            instruction.x < 16,
            instruction.spec_operation() == Some(operation),
            fault_of(machine(*old(self), memory, display), instruction, operation) == None::<Fault>,
            operation is SkipIfKey || operation is SkipIfNotKey || operation is WaitKey,
        ensures
            machine(*final(self), memory, display) == perform(
                machine(*old(self), memory, display),
                instruction,
                operation,
                keypad@,
                random,
            ),
            final(self).wf(),
            final(self).clock == old(self).clock,
            final(self).clock_timer == old(self).clock_timer,
    {
        let x = instruction.x;
        let vx = self.v[x];
        self.pc = self.pc + 2;
        match operation {
            Operation::SkipIfKey => if keypad.state[vx as usize] {
                self.pc = self.pc + 2;
            },
            Operation::SkipIfNotKey => if !keypad.state[vx as usize] {
                self.pc = self.pc + 2;
            },
            Operation::WaitKey => {
                proof {
                    lemma_lowest_pressed(keypad@);
                }
                match keypad.first_pressed() {
                    Some(key) => self.v[x] = key as u8,
                    None => self.pc = self.pc - 2,
                }
            },
            _ => {},
        }
        assert(machine(*self, memory, display) =~= perform(
            machine(*old(self), memory, display),
            instruction,
            operation,
            keypad@,
            random,
        ));
    }

    /// Executes an instruction that meets no fault.
    fn perform(
        &mut self,
        instruction: Instruction,
        operation: Operation,
        random: u8,
        memory: &mut Memory,
        display: &mut Display,
        keypad: &Keypad,
    )
        requires
            old(self).wf(),
            old(self).pc < 4095,
            instruction.wf(),
            instruction.spec_operation() == Some(operation),
            fault_of(machine(*old(self), *old(memory), *old(display)), instruction, operation)
                == None::<Fault>,
        ensures
            machine(*final(self), *final(memory), *final(display)) == perform(
                machine(*old(self), *old(memory), *old(display)),
                instruction,
                operation,
                keypad@,
                random,
            ),
            final(self).wf(),
            final(self).clock == old(self).clock,
            final(self).clock_timer == old(self).clock_timer,
    {
        match operation {
            Operation::ClearDisplay => {
                self.pc = self.pc + 2;
                display.clear();
                assert(machine(*self, *memory, *display) =~= perform(
                    machine(*old(self), *old(memory), *old(display)),
                    instruction,
                    operation,
                    keypad@,
                    random,
                ));
            },
            Operation::Random => {
                self.pc = self.pc + 2;
                self.v[instruction.x] = random & instruction.nn;
                assert(machine(*self, *memory, *display) =~= perform(
                    machine(*old(self), *old(memory), *old(display)),
                    instruction,
                    operation,
                    keypad@,
                    random,
                ));
            },
            Operation::Return
            | Operation::Jump
            | Operation::Call
            | Operation::SkipIfEqualByte
            | Operation::SkipIfNotEqualByte
            | Operation::SkipIfEqual
            | Operation::SkipIfNotEqual
            | Operation::JumpOffset => self.perform_control(
                instruction,
                operation,
                Ghost(*memory),
                Ghost(*display),
                Ghost(keypad@),
                Ghost(random),
            ),
            Operation::LoadByte
            | Operation::AddByte
            | Operation::Move
            | Operation::Or
            | Operation::And
            | Operation::Xor
            | Operation::ReadDelay
            | Operation::SetDelay
            | Operation::SetSound
            | Operation::LoadAddress
            | Operation::AddAddress
            | Operation::FontAddress => self.perform_register(
                instruction,
                operation,
                Ghost(*memory),
                Ghost(*display),
                Ghost(keypad@),
                Ghost(random),
            ),
            Operation::Add | Operation::Subtract | Operation::SubtractFrom => self.perform_arithmetic(
                instruction,
                operation,
                Ghost(*memory),
                Ghost(*display),
                Ghost(keypad@),
                Ghost(random),
            ),
            Operation::ShiftRight | Operation::ShiftLeft => self.perform_shift(
                instruction,
                operation,
                Ghost(*memory),
                Ghost(*display),
                Ghost(keypad@),
                Ghost(random),
            ),
            Operation::Draw
            | Operation::StoreDecimal
            | Operation::StoreRegisters
            | Operation::LoadRegisters => self.perform_memory(
                instruction,
                operation,
                memory,
                display,
                Ghost(keypad@),
                Ghost(random),
            ),
            Operation::SkipIfKey | Operation::SkipIfNotKey | Operation::WaitKey => self.perform_keypad(
                instruction,
                operation,
                keypad,
                Ghost(*memory),
                Ghost(*display),
                Ghost(random),
            ),
        }
    }

    /// Executes the instruction at the program counter, with `random` as
    /// the byte that the random operation would draw. An instruction that
    /// cannot be executed is a fault: it is returned, and processor, memory
    /// and display are left as they were.
    pub fn cycle_with(
        &mut self,
        random: u8,
        memory: &mut Memory,
        display: &mut Display,
        keypad: &Keypad,
    ) -> (result: Result<Instruction, Fault>)
        requires
            old(self).wf(),
        ensures
            stepped(
                machine(*old(self), *old(memory), *old(display)),
                keypad@,
                random,
                result,
                machine(*final(self), *final(memory), *final(display)),
            ),
            final(self).wf(),
            final(self).clock == old(self).clock,
            final(self).clock_timer == old(self).clock_timer,
    {
        match self.decode_next(memory, Ghost(display)) {
            Ok((instruction, operation)) => {
                self.perform(instruction, operation, random, memory, display, keypad);
                Ok(instruction)
            },
            Err(fault) => Err(fault),
        }
    }

    /// Executes the instruction at the program counter. An instruction that
    /// cannot be executed is a fault: it is returned, and processor, memory
    /// and display are left as they were. Only the random operation draws a
    /// random byte; every other step is determined by the machine and the
    /// keys.
    pub fn cycle(&mut self, memory: &mut Memory, display: &mut Display, keypad: &Keypad) -> (result:
        Result<Instruction, Fault>)
        requires
            old(self).wf(),
        ensures
            exists|random: u8|
                stepped(
                    machine(*old(self), *old(memory), *old(display)),
                    keypad@,
                    random,
                    result,
                    machine(*final(self), *final(memory), *final(display)),
                ),
            !draws_random(machine(*old(self), *old(memory), *old(display))) ==> stepped(
                machine(*old(self), *old(memory), *old(display)),
                keypad@,
                0,
                result,
                machine(*final(self), *final(memory), *final(display)),
            ),
            final(self).wf(),
            final(self).clock == old(self).clock,
            final(self).clock_timer == old(self).clock_timer,
    {
        let ghost before = machine(*self, *memory, *display);
        match self.decode_next(memory, Ghost(display)) {
            Ok((instruction, operation)) => {
                let random = match operation {
                    Operation::Random => random_byte(),
                    _ => 0,
                };
                self.perform(instruction, operation, random, memory, display, keypad);
                assert(stepped(
                    before,
                    keypad@,
                    random,
                    Ok(instruction),
                    machine(*self, *memory, *display),
                ));
                Ok(instruction)
            },
            Err(fault) => {
                assert(stepped(before, keypad@, 0, Err(fault), before));
                Err(fault)
            },
        }
    }

    /// Counts both timers down by one, where they are not zero.
    pub fn cycle_timers(&mut self)
        ensures
            final(self).dt == if old(self).dt > 0 { old(self).dt - 1 } else { 0 },
            final(self).st == if old(self).st > 0 { old(self).st - 1 } else { 0 },
            *final(self) == (Cpu { dt: final(self).dt, st: final(self).st, ..*old(self) }),
    {
        if self.dt > 0 {
            self.dt -= 1;
        }
        if self.st > 0 {
            self.st -= 1;
        }
    }

    /// Whether the buzzer sounds: it does while the sound timer is not zero.
    pub fn beep(&self) -> (sounds: bool)
        ensures
            sounds == (self.st > 0),
    {
        self.st > 0
    }

    /// The entry of the execution trace for an instruction that was just
    /// fetched: the processor as it is now.
    pub fn log(&self, instruction: Instruction) -> (entry: Log)
        ensures
            entry@ == (LogView {
                cycles: self.clock.cycles,
                instruction,
                pc: self.pc,
                sp: self.sp as int,
                dt: self.dt,
                st: self.st,
                v: self.v@,
                i: self.i,
            }),
    {
        Log {
            cycles: self.clock.cycles,
            instruction,
            pc: self.pc,
            sp: self.sp,
            dt: self.dt,
            st: self.st,
            v: self.v,
            i: self.i,
        }
    }

    /// A tick, which also adds to `trace` if `record` holds.
    pub(crate) fn tick_inner(
        &mut self,
        time: Time,
        memory: &mut Memory,
        display: &mut Display,
        keypad: &Keypad,
        record: bool,
        trace: &mut Vec<Log>,
    ) -> (result: Result<(), Fault>)
        requires
            old(self).wf(),
            time.wf(),
        ensures
            final(self).wf(),
            final(self).clock.rate == old(self).clock.rate,
            final(self).clock.cycles == saturate(time.cycles(old(self).clock.rate)),
            final(self).clock_timer.rate == old(self).clock_timer.rate,
            final(self).clock_timer.cycles == saturate(time.cycles(old(self).clock_timer.rate)),
            exists|random: u8|
                ticked(
                    machine(*old(self), *old(memory), *old(display)),
                    keypad@,
                    random,
                    time,
                    old(self).clock,
                    old(self).clock_timer,
                ) == (result, machine(*final(self), *final(memory), *final(display))),
            !draws_random(machine(*old(self), *old(memory), *old(display))) ==> ticked(
                machine(*old(self), *old(memory), *old(display)),
                keypad@,
                0,
                time,
                old(self).clock,
                old(self).clock_timer,
            ) == (result, machine(*final(self), *final(memory), *final(display))),
            views(final(trace)@) == views(old(trace)@) + if record {
                tick_trace(machine(*old(self), *old(memory), *old(display)), time, old(self).clock)
            } else {
                Seq::empty()
            },
    {
        let ghost before = machine(*self, *memory, *display);
        let mut result: Result<(), Fault> = Ok(());
        let ghost mut drawn: u8 = 0;
        let executes = self.clock.tick(time);
        if executes {
            if record {
                if let Ok(instruction) = memory.fetch(self.pc as usize) {
                    let entry = self.log(instruction);
                    trace.push(entry);
                    proof {
                        lemma_views_push(old(trace)@, entry);
                        assert(entry@ == fetch_log(before, self.clock.cycles));
                    }
                }
            }
            let outcome = self.cycle(memory, display, keypad);
            proof {
                if draws_random(before) {
                    drawn = choose|random: u8|
                        stepped(
                            before,
                            keypad@,
                            random,
                            outcome,
                            machine(*self, *memory, *display),
                        );
                }
            }
            if let Err(fault) = outcome {
                result = Err(fault);
            }
        }
        let ghost between = machine(*self, *memory, *display);
        let counts = self.clock_timer.tick(time);
        if counts {
            self.cycle_timers();
        }
        assert(machine(*self, *memory, *display) =~= if counts {
            between.count_down()
        } else {
            between
        });
        assert(ticked(before, keypad@, drawn, time, old(self).clock, old(self).clock_timer) == (
            result,
            machine(*self, *memory, *display),
        ));
        assert(views(trace@) =~= views(old(trace)@) + if record {
            tick_trace(before, time, old(self).clock)
        } else {
            Seq::empty()
        });
        result
    }

    /// Brings the processor to the time `time`. Where a new cycle of the
    /// instruction rate has begun since the last tick, one instruction is
    /// executed; where a new cycle of the timer rate has begun, the timers
    /// count down. Both may happen in one tick, and neither depends on the
    /// other: a fault of the instruction is returned after the timers were
    /// seen to.
    pub fn tick(
        &mut self,
        time: Time,
        memory: &mut Memory,
        display: &mut Display,
        keypad: &Keypad,
    ) -> (result: Result<(), Fault>)
        requires
            old(self).wf(),
            time.wf(),
        ensures
            final(self).wf(),
            final(self).clock.rate == old(self).clock.rate,
            final(self).clock.cycles == saturate(time.cycles(old(self).clock.rate)),
            final(self).clock_timer.rate == old(self).clock_timer.rate,
            final(self).clock_timer.cycles == saturate(time.cycles(old(self).clock_timer.rate)),
            exists|random: u8|
                ticked(
                    machine(*old(self), *old(memory), *old(display)),
                    keypad@,
                    random,
                    time,
                    old(self).clock,
                    old(self).clock_timer,
                ) == (result, machine(*final(self), *final(memory), *final(display))),
            !draws_random(machine(*old(self), *old(memory), *old(display))) ==> ticked(
                machine(*old(self), *old(memory), *old(display)),
                keypad@,
                0,
                time,
                old(self).clock,
                old(self).clock_timer,
            ) == (result, machine(*final(self), *final(memory), *final(display))),
    {
        let mut unused: Vec<Log> = Vec::new();
        self.tick_inner(time, memory, display, keypad, false, &mut unused)
    }

    /// Brings the processor to the time `time` as [`Cpu::tick`] does, and
    /// adds to `trace` an entry for the instruction that the tick fetches,
    /// if it fetches one: the state in which the instruction was fetched.
    pub fn tick_traced(
        &mut self,
        time: Time,
        memory: &mut Memory,
        display: &mut Display,
        keypad: &Keypad,
        trace: &mut Vec<Log>,
    ) -> (result: Result<(), Fault>)
        requires
            old(self).wf(),
            time.wf(),
        ensures
            final(self).wf(),
            final(self).clock.rate == old(self).clock.rate,
            final(self).clock.cycles == saturate(time.cycles(old(self).clock.rate)),
            final(self).clock_timer.rate == old(self).clock_timer.rate,
            final(self).clock_timer.cycles == saturate(time.cycles(old(self).clock_timer.rate)),
            exists|random: u8|
                ticked(
                    machine(*old(self), *old(memory), *old(display)),
                    keypad@,
                    random,
                    time,
                    old(self).clock,
                    old(self).clock_timer,
                ) == (result, machine(*final(self), *final(memory), *final(display))),
            !draws_random(machine(*old(self), *old(memory), *old(display))) ==> ticked(
                machine(*old(self), *old(memory), *old(display)),
                keypad@,
                0,
                time,
                old(self).clock,
                old(self).clock_timer,
            ) == (result, machine(*final(self), *final(memory), *final(display))),
            views(final(trace)@) == views(old(trace)@) + tick_trace(
                machine(*old(self), *old(memory), *old(display)),
                time,
                old(self).clock,
            ),
    {
        self.tick_inner(time, memory, display, keypad, true, trace)
    }

    /// Brings the processor to the time `time` as [`Cpu::tick`] does, with
    /// `random` as the byte that a random operation would draw.
    pub fn tick_with(
        &mut self,
        random: u8,
        time: Time,
        memory: &mut Memory,
        display: &mut Display,
        keypad: &Keypad,
    ) -> (result: Result<(), Fault>)
        requires
            old(self).wf(),
            time.wf(),
        ensures
            final(self).wf(),
            final(self).clock.rate == old(self).clock.rate,
            final(self).clock.cycles == saturate(time.cycles(old(self).clock.rate)),
            final(self).clock_timer.rate == old(self).clock_timer.rate,
            final(self).clock_timer.cycles == saturate(time.cycles(old(self).clock_timer.rate)),
            ticked(
                machine(*old(self), *old(memory), *old(display)),
                keypad@,
                random,
                time,
                old(self).clock,
                old(self).clock_timer,
            ) == (result, machine(*final(self), *final(memory), *final(display))),
    {
        let ghost before = machine(*self, *memory, *display);
        let mut result: Result<(), Fault> = Ok(());
        if self.clock.tick(time) {
            if let Err(fault) = self.cycle_with(random, memory, display, keypad) {
                result = Err(fault);
            }
        }
        let ghost between = machine(*self, *memory, *display);
        let counts = self.clock_timer.tick(time);
        if counts {
            self.cycle_timers();
        }
        assert(machine(*self, *memory, *display) =~= if counts {
            between.count_down()
        } else {
            between
        });
        result
    }

    /// The registers, stack and timers, copied.
    pub fn get_debug(&self) -> (snapshot: CpuDebug)
        ensures
            snapshot == (CpuDebug {
                v: self.v,
                i: self.i,
                pc: self.pc,
                stack: self.stack,
                sp: self.sp,
                dt: self.dt,
                st: self.st,
            }),
    {
        CpuDebug {
            v: self.v,
            i: self.i,
            pc: self.pc,
            stack: self.stack,
            sp: self.sp,
            dt: self.dt,
            st: self.st,
        }
    }
}

} // verus!
