//! The whole machine: processor, memory, display, keypad and the clock
//! that drives them.

use vstd::prelude::*;
use vstd::slice::slice_to_vec;
use crate::clock::{saturate, Clock, ClockDivider, Time, CLOCK_CPU, CLOCK_TIMER};
use crate::cpu::{machine, tick_trace, ticked, views, Cpu, Log, LogView};
use crate::disassembly::{mnemonic, Disassembly};
use crate::display::{rgba, Display, VRAM_SIZE};
use crate::error::{Fault, LoadError};
use crate::instruction::Instruction;
use crate::keypad::{Keypad, KEY_COUNT};
use crate::machine::{draws_random, Machine};
use crate::memory::{initial_ram, loaded, word_at, Memory, MEMORY_SIZE, PROGRAM_START};

verus! {

/// One of the machine's two rates.
pub enum Rate {
    /// The rate at which instructions are executed.
    Instructions,
    /// The rate at which the timers count down.
    Timers,
}

/// The state of an emulator: the machine, the keys, the clock, and the
/// two dividers as the last tick left them.
pub struct EmulatorState {
    pub machine: Machine,
    pub keys: Seq<bool>,
    pub clock: Clock,
    pub cpu_clock: ClockDivider,
    pub timer_clock: ClockDivider,
}

/// The cycle count of a divider of `rate` Hz that was last brought to the
/// time one tick before what `clock` shows now, or never where the clock
/// has not ticked yet.
pub open spec fn seen_cycles(clock: Clock, rate: u64) -> u64 {
    if clock.ticks == 0 {
        0
    } else {
        saturate(Time { ticks: (clock.ticks - 1) as u64, rate: clock.rate }.cycles(rate))
    }
}

impl EmulatorState {
    /// Whether the machine is well formed, the clock and the dividers have
    /// the rates of the machine, and the dividers have seen every tick of
    /// the clock but the one to come.
    pub open spec fn wf(self) -> bool {
        &&& self.machine.wf()
        &&& self.keys.len() == KEY_COUNT
        &&& self.clock.rate == CLOCK_CPU
        &&& self.cpu_clock == (ClockDivider {
            rate: CLOCK_CPU,
            cycles: seen_cycles(self.clock, CLOCK_CPU),
        })
        &&& self.timer_clock == (ClockDivider {
            rate: CLOCK_TIMER,
            cycles: seen_cycles(self.clock, CLOCK_TIMER),
        })
    }

    /// The state of an emulator that was made with the program `rom` and
    /// has not run yet.
    pub open spec fn initial(rom: Seq<u8>) -> EmulatorState {
        EmulatorState {
            machine: Machine {
                v: Seq::new(16, |k: int| 0u8),
                i: 0,
                pc: PROGRAM_START as u16,
                stack: Seq::new(16, |k: int| 0u16),
                sp: 0,
                dt: 0,
                st: 0,
                ram: loaded(initial_ram(), rom),
                pixels: Seq::new(VRAM_SIZE as nat, |p: int| false),
            },
            keys: Seq::new(KEY_COUNT as nat, |k: int| false),
            clock: Clock { rate: CLOCK_CPU, ticks: 0 },
            cpu_clock: ClockDivider { rate: CLOCK_CPU, cycles: 0 },
            timer_clock: ClockDivider { rate: CLOCK_TIMER, cycles: 0 },
        }
    }

    /// The time that the clock shows.
    pub open spec fn time(self) -> Time {
        Time { ticks: self.clock.ticks, rate: self.clock.rate }
    }

    /// The cycle count of the divider of the given rate.
    pub open spec fn cycles(self, rate: Rate) -> u64 {
        match rate {
            Rate::Instructions => self.cpu_clock.cycles,
            Rate::Timers => self.timer_clock.cycles,
        }
    }

    /// One cycle of the emulator: the processor is brought to the time
    /// that the clock shows, then the clock ticks. `random` is the byte
    /// that a random operation would draw.
    pub open spec fn cycle(self, random: u8) -> (Result<(), Fault>, EmulatorState) {
        let outcome = ticked(
            self.machine,
            self.keys,
            random,
            self.time(),
            self.cpu_clock,
            self.timer_clock,
        );
        (
            outcome.0,
            EmulatorState {
                machine: outcome.1,
                keys: self.keys,
                clock: Clock { rate: self.clock.rate, ticks: (self.clock.ticks + 1) as u64 },
                cpu_clock: ClockDivider {
                    rate: self.cpu_clock.rate,
                    cycles: saturate(self.time().cycles(self.cpu_clock.rate)),
                },
                timer_clock: ClockDivider {
                    rate: self.timer_clock.rate,
                    cycles: saturate(self.time().cycles(self.timer_clock.rate)),
                },
            },
        )
    }

    /// Cycles in a row, one for each byte of `randoms`, up to and with the
    /// first that ends in a fault.
    pub open spec fn run(self, randoms: Seq<u8>) -> (Result<(), Fault>, EmulatorState)
        decreases randoms.len(),
    {
        if randoms.len() == 0 {
            (Ok(()), self)
        } else {
            let earlier = self.run(randoms.drop_last());
            match earlier.0 {
                Ok(_) => earlier.1.cycle(randoms.last()),
                Err(_) => earlier,
            }
        }
    }

    /// Whether the first `k` of the cycles that `randoms` stands for end
    /// without a fault and without a new cycle of the given rate.
    pub open spec fn quiet(self, randoms: Seq<u8>, rate: Rate, k: int) -> bool {
        let earlier = self.run(randoms.take(k));
        earlier.0 is Ok && earlier.1.cycles(rate) == self.cycles(rate)
    }

    /// Whether `result` and `after` are what comes of running this state
    /// until the divider of the given rate counts a new cycle: at least
    /// one cycle is run, `randoms` holds the random byte of each, and the
    /// last of them is the first that brings a new cycle of that rate or a
    /// fault.
    pub open spec fn runs_until(
        self,
        rate: Rate,
        randoms: Seq<u8>,
        result: Result<(), Fault>,
        after: EmulatorState,
    ) -> bool {
        &&& randoms.len() >= 1
        &&& self.run(randoms) == (result, after)
        &&& forall|k: int| 0 <= k < randoms.len() ==> #[trigger] self.quiet(randoms, rate, k)
        &&& result is Ok ==> after.cycles(rate) != self.cycles(rate)
    }

    /// What one cycle adds to the execution trace: an entry for the
    /// instruction it fetches, if it fetches one.
    pub open spec fn fetched(self) -> Seq<LogView> {
        tick_trace(self.machine, self.time(), self.cpu_clock)
    }

    /// What the cycles of [`EmulatorState::run`] add to the execution
    /// trace: an entry for each instruction fetched, in order.
    pub open spec fn trace(self, randoms: Seq<u8>) -> Seq<LogView>
        decreases randoms.len(),
    {
        if randoms.len() == 0 {
            Seq::empty()
        } else {
            let earlier = self.run(randoms.drop_last());
            self.trace(randoms.drop_last()) + match earlier.0 {
                Ok(_) => earlier.1.fetched(),
                Err(_) => Seq::empty(),
            }
        }
    }
}

/// Running one cycle more: the run so far, and then, unless it ended in a
/// fault, a cycle with the new random byte. What the run so far was quiet
/// about, the longer run is too.
proof fn lemma_run_one_more(start: EmulatorState, randoms: Seq<u8>, random: u8, rate: Rate)
    ensures
        start.run(randoms.push(random)) == match start.run(randoms).0 {
            Ok(_) => start.run(randoms).1.cycle(random),
            Err(_) => start.run(randoms),
        },
        forall|k: int|
            0 <= k <= randoms.len() ==> #[trigger] start.quiet(randoms.push(random), rate, k)
                == start.quiet(randoms, rate, k),
        start.trace(randoms.push(random)) == start.trace(randoms) + match start.run(randoms).0 {
            Ok(_) => start.run(randoms).1.fetched(),
            Err(_) => Seq::empty(),
        },
{
    let longer = randoms.push(random);
    assert(longer.drop_last() == randoms);
    assert forall|k: int| 0 <= k <= randoms.len() implies #[trigger] start.quiet(longer, rate, k)
        == start.quiet(randoms, rate, k) by {
        assert(longer.take(k) == randoms.take(k));
    }
}

/// With the clock and the instruction divider at the same rate, the
/// divider counts a new cycle at every tick but the very first.
proof fn lemma_instruction_cycles(ticks: u64)
    ensures
        seen_cycles(Clock { rate: CLOCK_CPU, ticks }, CLOCK_CPU) == if ticks == 0 {
            0
        } else {
            ticks - 1
        },
{
    if ticks > 0 {
        let earlier = (ticks - 1) as u64;
        assert(CLOCK_CPU == 500);
        assert(earlier * 500 / 500 == earlier);
        assert(Time { ticks: earlier, rate: CLOCK_CPU }.cycles(CLOCK_CPU) == earlier);
    }
}

/// The timer divider does not stay at one count for more than nine ticks
/// of the clock, nor for more than ten from the start.
proof fn lemma_timer_cycles(start: u64, passed: int)
    requires
        start + passed <= u64::MAX,
        0 <= passed,
        seen_cycles(Clock { rate: CLOCK_CPU, ticks: (start + passed) as u64 }, CLOCK_TIMER)
            == seen_cycles(Clock { rate: CLOCK_CPU, ticks: start }, CLOCK_TIMER),
    ensures
        passed <= 9,
{
    assert(CLOCK_CPU == 500 && CLOCK_TIMER == 60);
    let last = (start + passed - 1) as u64;
    if passed > 0 {
        let later = Time { ticks: last, rate: CLOCK_CPU }.cycles(CLOCK_TIMER);
        assert(later == last * 60 / 500);
        assert(later <= u64::MAX);
        if start > 0 {
            let first = (start - 1) as u64;
            let earlier = Time { ticks: first, rate: CLOCK_CPU }.cycles(CLOCK_TIMER);
            assert(earlier == first * 60 / 500);
            assert(earlier <= u64::MAX);
        }
    }
}

/// The emulator: one processor with its memory, display and keypad, and
/// the clock that paces them.
pub struct Emulator {
    pub(crate) cpu: Cpu,
    pub(crate) memory: Memory,
    pub(crate) display: Display,
    pub(crate) keypad: Keypad,
    pub(crate) clock: Clock,
}

impl View for Emulator {
    type V = EmulatorState;

    closed spec fn view(&self) -> EmulatorState {
        EmulatorState {
            machine: machine(self.cpu, self.memory, self.display),
            keys: self.keypad@,
            clock: self.clock,
            cpu_clock: self.cpu.clock,
            timer_clock: self.cpu.clock_timer,
        }
    }
}

impl Emulator {
    /// Whether the emulator's state is well formed. Every emulator that
    /// [`Emulator::new`] makes is, and every method keeps it so.
    pub open spec fn wf(&self) -> bool {
        self@.wf()
    }

    /// An emulator with the font and the program `rom` in memory, ready to
    /// run it from the program start. A program that does not fit in
    /// memory is refused.
    pub fn new(rom: &[u8]) -> (result: Result<Emulator, LoadError>)
        ensures
            rom@.len() <= MEMORY_SIZE - PROGRAM_START ==> result is Ok && result->Ok_0@
                == EmulatorState::initial(rom@) && result->Ok_0.wf(),
            rom@.len() > MEMORY_SIZE - PROGRAM_START ==> result is Err && result->Err_0
                == LoadError::TooLarge,
    {
        let mut memory = Memory::new();
        match memory.load(rom) {
            Ok(()) => {
                let emulator = Emulator {
                    cpu: Cpu::new(),
                    memory,
                    display: Display::new(),
                    keypad: Keypad::new(),
                    clock: Clock::new(CLOCK_CPU),
                };
                assert(emulator@.machine =~= EmulatorState::initial(rom@).machine);
                Ok(emulator)
            },
            Err(error) => Err(error),
        }
    }

    /// A cycle, which also adds to `trace` if `record` holds.
    fn cycle_inner(&mut self, record: bool, trace: &mut Vec<Log>) -> (result: Result<(), Fault>)
        requires
            old(self).wf(),
            old(self)@.clock.ticks < u64::MAX,
        ensures
            final(self).wf(),
            exists|random: u8| old(self)@.cycle(random) == (result, final(self)@),
            !draws_random(old(self)@.machine) ==> old(self)@.cycle(0) == (result, final(self)@),
            views(final(trace)@) == views(old(trace)@) + if record {
                old(self)@.fetched()
            } else {
                Seq::empty()
            },
    {
        let time = self.clock.time();
        let result = self.cpu.tick_inner(
            time,
            &mut self.memory,
            &mut self.display,
            &self.keypad,
            record,
            trace,
        );
        self.clock.tick();
        proof {
            let random = choose|random: u8|
                ticked(
                    old(self)@.machine,
                    old(self)@.keys,
                    random,
                    time,
                    old(self)@.cpu_clock,
                    old(self)@.timer_clock,
                ) == (result, machine(self.cpu, self.memory, self.display));
            assert(old(self)@.cycle(random).1 =~= self@);
            assert(old(self)@.cycle(random) == (result, self@));
            if !draws_random(old(self)@.machine) {
                assert(old(self)@.cycle(0).1 =~= self@);
            }
        }
        result
    }

    /// Runs one cycle: the processor is brought to the time that the clock
    /// shows, which may execute an instruction, count the timers down, or
    /// both, and then the clock ticks. A fault of the instruction is
    /// returned; the instruction has then changed nothing, while clock,
    /// dividers and timers have gone on.
    pub fn cycle(&mut self) -> (result: Result<(), Fault>)
        requires
            old(self).wf(),
            old(self)@.clock.ticks < u64::MAX,
        ensures
            final(self).wf(),
            exists|random: u8| old(self)@.cycle(random) == (result, final(self)@),
            !draws_random(old(self)@.machine) ==> old(self)@.cycle(0) == (result, final(self)@),
    {
        let mut unused: Vec<Log> = Vec::new();
        self.cycle_inner(false, &mut unused)
    }

    /// Runs one cycle as [`Emulator::cycle`] does, and adds to `trace` an
    /// entry for the instruction that the cycle fetches, if it fetches
    /// one: the state in which the instruction was fetched. An instruction
    /// that meets a fault after it was fetched has its entry too.
    pub fn cycle_traced(&mut self, trace: &mut Vec<Log>) -> (result: Result<(), Fault>)
        requires
            old(self).wf(),
            old(self)@.clock.ticks < u64::MAX,
        ensures
            final(self).wf(),
            exists|random: u8| old(self)@.cycle(random) == (result, final(self)@),
            !draws_random(old(self)@.machine) ==> old(self)@.cycle(0) == (result, final(self)@),
            views(final(trace)@) == views(old(trace)@) + old(self)@.fetched(),
    {
        self.cycle_inner(true, trace)
    }

    /// Runs one cycle as [`Emulator::cycle`] does, with `random` as the
    /// byte that a random operation would draw.
    pub fn cycle_with(&mut self, random: u8) -> (result: Result<(), Fault>)
        requires
            old(self).wf(),
            old(self)@.clock.ticks < u64::MAX,
        ensures
            final(self).wf(),
            old(self)@.cycle(random) == (result, final(self)@),
    {
        let time = self.clock.time();
        let result = self.cpu.tick_with(
            random,
            time,
            &mut self.memory,
            &mut self.display,
            &self.keypad,
        );
        self.clock.tick();
        assert(old(self)@.cycle(random).1 =~= self@);
        result
    }

    /// Runs cycles until the divider has counted a new cycle or an
    /// instruction has met a fault, and adds to `trace` if `record` holds.
    #[verifier::rlimit(30)]
    fn until_timer(&mut self, record: bool, trace: &mut Vec<Log>) -> (result: Result<(), Fault>)
        requires
            old(self).wf(),
            old(self)@.clock.ticks + 10 <= u64::MAX,
        ensures
            final(self).wf(),
            exists|randoms: Seq<u8>|
                randoms.len() <= 10 && final(self)@.clock.ticks == old(self)@.clock.ticks
                    + randoms.len() && #[trigger] old(self)@.runs_until(
                    Rate::Timers,
                    randoms,
                    result,
                    final(self)@,
                ) && views(final(trace)@) == views(old(trace)@) + if record {
                    old(self)@.trace(randoms)
                } else {
                    Seq::empty()
                },
    {
        let cycle = self.cpu.clock_timer.cycles;
        let ghost start = self@;
        let ghost mut randoms = Seq::<u8>::empty();
        assert(views(trace@) =~= views(old(trace)@) + Seq::<LogView>::empty());
        while cycle == self.cpu.clock_timer.cycles
            invariant
                self.wf(),
                start.wf(),
                start == old(self)@,
                cycle == start.cycles(Rate::Timers),
                start.clock.ticks + 10 <= u64::MAX,
                self@.clock.ticks == start.clock.ticks + randoms.len(),
                randoms.len() <= 10,
                start.run(randoms) == (Ok::<(), Fault>(()), self@),
                forall|k: int|
                    0 <= k < randoms.len() ==> #[trigger] start.quiet(randoms, Rate::Timers, k),
                randoms.len() == 0 ==> self@ == start,
                views(trace@) == views(old(trace)@) + if record {
                    start.trace(randoms)
                } else {
                    Seq::empty()
                },
            decreases 10 - randoms.len(),
        {
            let ghost before = self@;
            proof {
                lemma_timer_cycles(start.clock.ticks, randoms.len() as int);
            }
            let outcome = self.cycle_inner(record, trace);
            proof {
                let random = choose|random: u8| before.cycle(random) == (outcome, self@);
                lemma_run_one_more(start, randoms, random, Rate::Timers);
                assert(randoms.push(random).take(randoms.len() as int) == randoms);
                assert(start.quiet(randoms.push(random), Rate::Timers, randoms.len() as int));
                assert(views(trace@) =~= views(old(trace)@) + if record {
                    start.trace(randoms.push(random))
                } else {
                    Seq::empty()
                });
                randoms = randoms.push(random);
            }
            if let Err(fault) = outcome {
                assert(start.runs_until(Rate::Timers, randoms, Err(fault), self@));
                return Err(fault);
            }
        }
        assert(start.runs_until(Rate::Timers, randoms, Ok(()), self@));
        Ok(())
    }

    /// Runs cycles until the timer divider has counted a new cycle, that is
    /// until the timers have counted down once more, or until an
    /// instruction meets a fault, which is returned. This takes at most ten
    /// cycles.
    pub fn cycle_until_timer(&mut self) -> (result: Result<(), Fault>)
        requires
            old(self).wf(),
            old(self)@.clock.ticks + 10 <= u64::MAX,
        ensures
            final(self).wf(),
            exists|randoms: Seq<u8>|
                randoms.len() <= 10 && final(self)@.clock.ticks == old(self)@.clock.ticks
                    + randoms.len() && #[trigger] old(self)@.runs_until(
                    Rate::Timers,
                    randoms,
                    result,
                    final(self)@,
                ),
    {
        let mut unused: Vec<Log> = Vec::new();
        self.until_timer(false, &mut unused)
    }

    /// Runs cycles as [`Emulator::cycle_until_timer`] does, and adds to
    /// `trace` an entry for each instruction fetched, in order.
    pub fn cycle_until_timer_traced(&mut self, trace: &mut Vec<Log>) -> (result: Result<(), Fault>)
        requires
            old(self).wf(),
            old(self)@.clock.ticks + 10 <= u64::MAX,
        ensures
            final(self).wf(),
            exists|randoms: Seq<u8>|
                randoms.len() <= 10 && final(self)@.clock.ticks == old(self)@.clock.ticks
                    + randoms.len() && #[trigger] old(self)@.runs_until(
                    Rate::Timers,
                    randoms,
                    result,
                    final(self)@,
                ) && views(final(trace)@) == views(old(trace)@) + old(self)@.trace(randoms),
    {
        self.until_timer(true, trace)
    }

    /// Runs cycles until the divider has counted a new cycle or an
    /// instruction has met a fault, and adds to `trace` if `record` holds.
    #[verifier::rlimit(30)]
    fn until_cpu(&mut self, record: bool, trace: &mut Vec<Log>) -> (result: Result<(), Fault>)
        requires
            old(self).wf(),
            old(self)@.clock.ticks + 2 <= u64::MAX,
        ensures
            final(self).wf(),
            exists|randoms: Seq<u8>|
                randoms.len() <= 2 && final(self)@.clock.ticks == old(self)@.clock.ticks
                    + randoms.len() && #[trigger] old(self)@.runs_until(
                    Rate::Instructions,
                    randoms,
                    result,
                    final(self)@,
                ) && views(final(trace)@) == views(old(trace)@) + if record {
                    old(self)@.trace(randoms)
                } else {
                    Seq::empty()
                },
    {
        let cycle = self.cpu.clock.cycles;
        let ghost start = self@;
        let ghost mut randoms = Seq::<u8>::empty();
        assert(views(trace@) =~= views(old(trace)@) + Seq::<LogView>::empty());
        while cycle == self.cpu.clock.cycles
            invariant
                self.wf(),
                start.wf(),
                start == old(self)@,
                cycle == start.cycles(Rate::Instructions),
                start.clock.ticks + 2 <= u64::MAX,
                self@.clock.ticks == start.clock.ticks + randoms.len(),
                randoms.len() <= 2,
                start.run(randoms) == (Ok::<(), Fault>(()), self@),
                forall|k: int|
                    0 <= k < randoms.len() ==> #[trigger] start.quiet(randoms, Rate::Instructions, k),
                randoms.len() == 0 ==> self@ == start,
                views(trace@) == views(old(trace)@) + if record {
                    start.trace(randoms)
                } else {
                    Seq::empty()
                },
            decreases 2 - randoms.len(),
        {
            let ghost before = self@;
            proof {
                lemma_instruction_cycles(start.clock.ticks);
                lemma_instruction_cycles(self@.clock.ticks);
            }
            let outcome = self.cycle_inner(record, trace);
            proof {
                let random = choose|random: u8| before.cycle(random) == (outcome, self@);
                lemma_run_one_more(start, randoms, random, Rate::Instructions);
                assert(randoms.push(random).take(randoms.len() as int) == randoms);
                assert(start.quiet(randoms.push(random), Rate::Instructions, randoms.len() as int));
                assert(views(trace@) =~= views(old(trace)@) + if record {
                    start.trace(randoms.push(random))
                } else {
                    Seq::empty()
                });
                randoms = randoms.push(random);
            }
            if let Err(fault) = outcome {
                assert(start.runs_until(Rate::Instructions, randoms, Err(fault), self@));
                return Err(fault);
            }
        }
        assert(start.runs_until(Rate::Instructions, randoms, Ok(()), self@));
        Ok(())
    }

    /// Runs cycles until the instruction divider has counted a new cycle,
    /// that is until one more instruction was executed or met a fault,
    /// which is returned. This takes one cycle, or two at the very start.
    pub fn cycle_until_cpu(&mut self) -> (result: Result<(), Fault>)
        requires
            old(self).wf(),
            old(self)@.clock.ticks + 2 <= u64::MAX,
        ensures
            final(self).wf(),
            exists|randoms: Seq<u8>|
                randoms.len() <= 2 && final(self)@.clock.ticks == old(self)@.clock.ticks
                    + randoms.len() && #[trigger] old(self)@.runs_until(
                    Rate::Instructions,
                    randoms,
                    result,
                    final(self)@,
                ),
    {
        let mut unused: Vec<Log> = Vec::new();
        self.until_cpu(false, &mut unused)
    }

    /// Runs cycles as [`Emulator::cycle_until_cpu`] does, and adds to
    /// `trace` an entry for the instruction fetched.
    pub fn cycle_until_cpu_traced(&mut self, trace: &mut Vec<Log>) -> (result: Result<(), Fault>)
        requires
            old(self).wf(),
            old(self)@.clock.ticks + 2 <= u64::MAX,
        ensures
            final(self).wf(),
            exists|randoms: Seq<u8>|
                randoms.len() <= 2 && final(self)@.clock.ticks == old(self)@.clock.ticks
                    + randoms.len() && #[trigger] old(self)@.runs_until(
                    Rate::Instructions,
                    randoms,
                    result,
                    final(self)@,
                ) && views(final(trace)@) == views(old(trace)@) + old(self)@.trace(randoms),
    {
        self.until_cpu(true, trace)
    }

    /// Whether the buzzer sounds: it does while the sound timer is not zero.
    pub fn beep(&self) -> (sounds: bool)
        ensures
            sounds == (self@.machine.st > 0),
    {
        self.cpu.beep()
    }

    /// Sets key `key` pressed or released. The keys are 0 to 15.
    pub fn update_key(&mut self, key: usize, state: bool)
        requires
            key < KEY_COUNT,
        ensures
            final(self)@ == (EmulatorState {
                keys: old(self)@.keys.update(key as int, state),
                ..old(self)@
            }),
    {
        self.keypad.state[key] = state;
    }

    /// The frame on the display, as colours for a canvas: four bytes for
    /// each pixel, row by row.
    pub fn get_framebuffer(&self) -> (frame: Vec<u8>)
        ensures
            frame@ == rgba(self@.machine.pixels),
    {
        self.display.to_rgba()
    }

    /// The program counter.
    pub fn debug_cpu_pc(&self) -> (pc: u16)
        ensures
            pc == self@.machine.pc,
    {
        self.cpu.pc
    }

    /// The number of return addresses on the stack.
    pub fn debug_cpu_sp(&self) -> (sp: usize)
        ensures
            sp == self@.machine.sp,
    {
        self.cpu.sp
    }

    /// The general registers, `V0` first.
    pub fn debug_cpu_v(&self) -> (v: Vec<u8>)
        ensures
            v@ == self@.machine.v,
    {
        slice_to_vec(self.cpu.v.as_slice())
    }

    /// The address register.
    pub fn debug_cpu_i(&self) -> (i: u16)
        ensures
            i == self@.machine.i,
    {
        self.cpu.i
    }

    /// The call stack, all 16 entries of it.
    pub fn debug_cpu_stack(&self) -> (stack: Vec<u16>)
        ensures
            stack@ == self@.machine.stack,
    {
        slice_to_vec(self.cpu.stack.as_slice())
    }

    /// The delay timer.
    pub fn debug_cpu_dt(&self) -> (dt: u8)
        ensures
            dt == self@.machine.dt,
    {
        self.cpu.dt
    }

    /// The sound timer.
    pub fn debug_cpu_st(&self) -> (st: u8)
        ensures
            st == self@.machine.st,
    {
        self.cpu.st
    }

    /// The divider that paces the instructions.
    pub fn debug_cpu_clock(&self) -> (divider: ClockDivider)
        ensures
            divider == self@.cpu_clock,
    {
        self.cpu.clock
    }

    /// The divider that paces the timers.
    pub fn debug_cpu_clock_timer(&self) -> (divider: ClockDivider)
        ensures
            divider == self@.timer_clock,
    {
        self.cpu.clock_timer
    }

    /// The ticks that the clock has counted.
    pub fn debug_clock_ticks(&self) -> (ticks: u64)
        ensures
            ticks == self@.clock.ticks,
    {
        self.clock.ticks
    }

    /// The keys, by index: whether each is held down.
    pub fn debug_input(&self) -> (keys: Vec<bool>)
        ensures
            keys@ == self@.keys,
    {
        slice_to_vec(self.keypad.state.as_slice())
    }

    /// The whole of memory.
    pub fn debug_memory(&self) -> (ram: Vec<u8>)
        ensures
            ram@ == self@.machine.ram,
    {
        slice_to_vec(self.memory.ram.as_slice())
    }

    /// The instruction word at `address` as a debugger lists it: with its
    /// address and in assembly language. The last address that holds a word
    /// is 4094.
    pub fn debug_disassembly_at(&self, address: u16) -> (result: Result<Disassembly, Fault>)
        ensures
            address < MEMORY_SIZE - 1 ==> result is Ok && result->Ok_0.address == address
                && result->Ok_0.opcode == word_at(self@.machine.ram, address as int)
                && result->Ok_0.disassembly@ == mnemonic(
                Instruction::decode(word_at(self@.machine.ram, address as int)),
            ),
            address >= MEMORY_SIZE - 1 ==> result is Err && result->Err_0
                == Fault::FetchOutOfBounds,
    {
        match self.memory.fetch(address as usize) {
            Ok(instruction) => Ok(Disassembly::new(instruction, address)),
            Err(fault) => Err(fault),
        }
    }

    /// The address of the instruction word with the given index, where
    /// memory is read as a row of words.
    pub fn debug_disassembly_index_to_address(&self, offset: u16) -> (address: u16)
        requires
            offset <= u16::MAX / 2,
        ensures
            address == offset * 2,
    {
        offset * 2
    }

    /// The index of the instruction word at the given address, where
    /// memory is read as a row of words.
    pub fn debug_disassembly_address_to_index(&self, address: u16) -> (index: u16)
        ensures
            index == address / 2,
    {
        address / 2
    }

    /// The number of instruction words that memory holds.
    pub fn debug_disassembly_total(&self) -> (total: usize)
        ensures
            total == MEMORY_SIZE / 2,
    {
        MEMORY_SIZE / 2
    }
}

} // verus!
