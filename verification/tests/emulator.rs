use chip8::emulator::Emulator;
use chip8::error::{Fault, LoadError};

fn rom(program: &[u16]) -> Vec<u8> {
    let mut bytes = Vec::new();
    for word in program {
        bytes.push((word >> 8) as u8);
        bytes.push((word & 0xFF) as u8);
    }
    bytes
}

fn lit(emulator: &Emulator) -> Vec<(usize, usize)> {
    let frame = emulator.get_framebuffer();
    let mut on = Vec::new();
    for y in 0..32 {
        for x in 0..64 {
            let at = 4 * (x + y * 64);
            let pixel = &frame[at..at + 4];
            assert!(pixel == [255, 255, 255, 255] || pixel == [0, 0, 0, 255]);
            if pixel[0] == 255 {
                on.push((x, y));
            }
        }
    }
    on
}

#[test]
fn new_emulator_holds_font_and_program() {
    let emulator = Emulator::new(&[0x12, 0x34]).ok().unwrap();
    let ram = emulator.debug_memory();
    assert_eq!(ram.len(), 4096);
    assert_eq!(&ram[0..5], &[0xF0, 0x90, 0x90, 0x90, 0xF0]);
    assert_eq!(&ram[0x200..0x203], &[0x12, 0x34, 0]);
    assert_eq!(emulator.debug_cpu_pc(), 0x200);
    assert_eq!(emulator.debug_cpu_sp(), 0);
    assert_eq!(emulator.debug_cpu_i(), 0);
    assert_eq!(emulator.debug_cpu_v(), vec![0; 16]);
    assert_eq!(emulator.debug_cpu_stack(), vec![0; 16]);
    assert_eq!(emulator.debug_cpu_dt(), 0);
    assert_eq!(emulator.debug_cpu_st(), 0);
    assert_eq!(emulator.debug_input(), vec![false; 16]);
    assert_eq!(emulator.debug_clock_ticks(), 0);
    assert_eq!((emulator.debug_cpu_clock().rate, emulator.debug_cpu_clock().cycles), (500, 0));
    assert_eq!(
        (emulator.debug_cpu_clock_timer().rate, emulator.debug_cpu_clock_timer().cycles),
        (60, 0)
    );
    assert!(!emulator.beep());
    assert!(lit(&emulator).is_empty());
    assert_eq!(emulator.get_framebuffer().len(), 8192);
}

#[test]
fn new_emulator_refuses_a_program_that_does_not_fit() {
    assert!(Emulator::new(&vec![0; 4096 - 0x200]).is_ok());
    match Emulator::new(&vec![0; 4096 - 0x200 + 1]) {
        Err(error) => assert_eq!(error, LoadError::TooLarge),
        Ok(_) => panic!("a program that is too large was loaded"),
    }
}

#[test]
fn first_cycle_meets_no_new_instruction_cycle() {
    let mut emulator = Emulator::new(&rom(&[0x6A02])).ok().unwrap();
    emulator.cycle().unwrap();
    assert_eq!(emulator.debug_cpu_pc(), 0x200);
    assert_eq!(emulator.debug_clock_ticks(), 1);
    emulator.cycle().unwrap();
    assert_eq!(emulator.debug_cpu_pc(), 0x202);
    assert_eq!(emulator.debug_cpu_v()[0xA], 0x02);
    assert_eq!(emulator.debug_clock_ticks(), 2);
    assert_eq!(emulator.debug_cpu_clock().cycles, 1);
}

#[test]
fn clear_load_and_jump_back() {
    let mut emulator = Emulator::new(&rom(&[0x00E0, 0x6A02, 0x1200])).ok().unwrap();
    for _ in 0..3 {
        emulator.cycle_until_cpu().unwrap();
    }
    assert!(lit(&emulator).is_empty());
    assert_eq!(emulator.debug_cpu_v()[0xA], 0x02);
    assert_eq!(emulator.debug_cpu_pc(), 0x200);
    assert_eq!(emulator.debug_cpu_clock().cycles, 3);
    assert_eq!(emulator.debug_clock_ticks(), 4);
}

#[test]
fn glyph_zero_is_drawn_from_the_font() {
    // I = 0: the glyph of 0; V0 = 0
    let mut emulator = Emulator::new(&rom(&[0xA000, 0xD005])).ok().unwrap();
    emulator.cycle_until_cpu().unwrap();
    emulator.cycle_until_cpu().unwrap();
    assert_eq!(
        lit(&emulator),
        vec![
            (0, 0), (1, 0), (2, 0), (3, 0),
            (0, 1), (3, 1),
            (0, 2), (3, 2),
            (0, 3), (3, 3),
            (0, 4), (1, 4), (2, 4), (3, 4),
        ]
    );
    assert_eq!(emulator.debug_cpu_v()[0xF], 0);
    assert_eq!(emulator.debug_cpu_pc(), 0x204);
}

#[test]
fn sprite_at_the_program_start_is_the_program() {
    // I = 0x200: the five rows drawn are the bytes A2 00 D0 05 00
    let mut emulator = Emulator::new(&rom(&[0xA200, 0xD005])).ok().unwrap();
    emulator.cycle_until_cpu().unwrap();
    emulator.cycle_until_cpu().unwrap();
    assert_eq!(
        lit(&emulator),
        vec![(0, 0), (2, 0), (6, 0), (0, 2), (1, 2), (3, 2), (5, 3), (7, 3)]
    );
    assert_eq!(emulator.debug_cpu_v()[0xF], 0);
}

#[test]
fn cycle_until_cpu_executes_one_instruction() {
    let mut emulator = Emulator::new(&rom(&[0x7001, 0x1200])).ok().unwrap();
    for n in 1..=20 {
        emulator.cycle_until_cpu().unwrap();
        assert_eq!(emulator.debug_cpu_clock().cycles, n);
        assert_eq!(emulator.debug_clock_ticks(), n + 1);
        assert_eq!(emulator.debug_cpu_v()[0] as u64, (n + 1) / 2);
    }
}

#[test]
fn cycle_until_timer_runs_to_the_next_count_of_the_timers() {
    // V0 counts the instructions executed
    let mut emulator = Emulator::new(&rom(&[0x6105, 0xF115, 0x7001, 0x1204])).ok().unwrap();
    emulator.cycle_until_timer().unwrap();
    assert_eq!(emulator.debug_cpu_clock_timer().cycles, 1);
    // ticks 0 to 9 were run: nine instructions, the first tick had none
    assert_eq!(emulator.debug_clock_ticks(), 10);
    assert_eq!(emulator.debug_cpu_clock().cycles, 9);
    assert_eq!(emulator.debug_cpu_dt(), 4);
    emulator.cycle_until_timer().unwrap();
    assert_eq!(emulator.debug_cpu_clock_timer().cycles, 2);
    assert_eq!(emulator.debug_clock_ticks(), 18);
    assert_eq!(emulator.debug_cpu_dt(), 3);
    emulator.cycle_until_timer().unwrap();
    assert_eq!(emulator.debug_clock_ticks(), 26);
    emulator.cycle_until_timer().unwrap();
    assert_eq!(emulator.debug_clock_ticks(), 35);
    assert_eq!(emulator.debug_cpu_clock_timer().cycles, 4);
    assert_eq!(emulator.debug_cpu_dt(), 1);
    emulator.cycle_until_timer().unwrap();
    emulator.cycle_until_timer().unwrap();
    assert_eq!(emulator.debug_cpu_dt(), 0);
}

#[test]
fn sixty_timer_cycles_take_a_second() {
    let mut emulator = Emulator::new(&rom(&[0x1200])).ok().unwrap();
    for _ in 0..60 {
        emulator.cycle_until_timer().unwrap();
    }
    assert_eq!(emulator.debug_cpu_clock_timer().cycles, 60);
    assert_eq!(emulator.debug_clock_ticks(), 501);
    assert_eq!(emulator.debug_cpu_clock().cycles, 500);
}

#[test]
fn buzzer_sounds_while_the_sound_timer_runs() {
    let mut emulator = Emulator::new(&rom(&[0x6102, 0xF118, 0x1204])).ok().unwrap();
    assert!(!emulator.beep());
    emulator.cycle_until_cpu().unwrap();
    emulator.cycle_until_cpu().unwrap();
    assert!(emulator.beep());
    assert_eq!(emulator.debug_cpu_st(), 2);
    emulator.cycle_until_timer().unwrap();
    assert!(emulator.beep());
    emulator.cycle_until_timer().unwrap();
    assert!(!emulator.beep());
    assert_eq!(emulator.debug_cpu_st(), 0);
}

#[test]
fn keys_are_set_and_released() {
    let mut emulator = Emulator::new(&rom(&[0xF50A, 0x1202])).ok().unwrap();
    for _ in 0..5 {
        emulator.cycle_until_cpu().unwrap();
        assert_eq!(emulator.debug_cpu_pc(), 0x200);
    }
    emulator.update_key(0xD, true);
    emulator.update_key(0x4, true);
    emulator.update_key(0x4, false);
    let mut expected = vec![false; 16];
    expected[0xD] = true;
    assert_eq!(emulator.debug_input(), expected);
    emulator.cycle_until_cpu().unwrap();
    assert_eq!(emulator.debug_cpu_pc(), 0x202);
    assert_eq!(emulator.debug_cpu_v()[5], 0xD);
    emulator.update_key(0, true);
    emulator.update_key(15, true);
    assert!(emulator.debug_input()[0] && emulator.debug_input()[15]);
}

#[test]
fn fault_is_returned_and_the_machine_stays() {
    let mut emulator = Emulator::new(&rom(&[0x6A02, 0x00EE])).ok().unwrap();
    emulator.cycle_until_cpu().unwrap();
    assert_eq!(emulator.cycle_until_cpu(), Err(Fault::StackUnderflow));
    assert_eq!(emulator.debug_cpu_pc(), 0x202);
    assert_eq!(emulator.debug_cpu_v()[0xA], 0x02);
    // time has gone on
    assert_eq!(emulator.debug_clock_ticks(), 3);
    // and the next attempt meets the same fault
    assert_eq!(emulator.cycle(), Err(Fault::StackUnderflow));
    assert_eq!(emulator.cycle_until_timer(), Err(Fault::StackUnderflow));
    assert_eq!(emulator.debug_cpu_pc(), 0x202);
}

#[test]
fn empty_program_meets_an_unknown_word() {
    let mut emulator = Emulator::new(&[]).ok().unwrap();
    assert_eq!(emulator.cycle(), Ok(()));
    assert_eq!(emulator.cycle(), Err(Fault::UnknownOpcode(0)));
    assert_eq!(emulator.debug_cpu_pc(), 0x200);
}

#[test]
fn words_of_memory_are_decoded_for_the_debugger() {
    let emulator = Emulator::new(&rom(&[0xD125])).ok().unwrap();
    let listing = emulator.debug_disassembly_at(0x200).ok().unwrap();
    assert_eq!(listing.address, 0x200);
    assert_eq!(listing.opcode, 0xD125);
    assert_eq!(listing.disassembly, "DRW V1, V2, 5");
    let last = emulator.debug_disassembly_at(4094).ok().unwrap();
    assert_eq!((last.address, last.opcode), (4094, 0));
    assert_eq!(last.disassembly, "???");
    assert_eq!(emulator.debug_disassembly_at(4095).err(), Some(Fault::FetchOutOfBounds));
    assert_eq!(emulator.debug_disassembly_at(0xFFFF).err(), Some(Fault::FetchOutOfBounds));
    assert_eq!(emulator.debug_disassembly_total(), 2048);
    assert_eq!(emulator.debug_disassembly_index_to_address(0x100), 0x200);
    assert_eq!(emulator.debug_disassembly_index_to_address(0x7FFF), 0xFFFE);
    assert_eq!(emulator.debug_disassembly_address_to_index(0x200), 0x100);
    assert_eq!(emulator.debug_disassembly_address_to_index(0x201), 0x100);
}

#[test]
fn cycle_with_takes_the_random_byte_from_the_caller() {
    let mut emulator = Emulator::new(&rom(&[0xC1FF, 0xC23C])).ok().unwrap();
    emulator.cycle_with(0x5A).unwrap();
    assert_eq!(emulator.debug_cpu_pc(), 0x200);
    emulator.cycle_with(0x5A).unwrap();
    assert_eq!(emulator.debug_cpu_v()[1], 0x5A);
    emulator.cycle_with(0xFF).unwrap();
    assert_eq!(emulator.debug_cpu_v()[2], 0x3C);
    assert_eq!(emulator.debug_clock_ticks(), 3);
}

#[test]
fn random_operation_draws_within_its_mask() {
    let mut emulator = Emulator::new(&rom(&[0xC107, 0x1200])).ok().unwrap();
    for _ in 0..100 {
        emulator.cycle_until_cpu().unwrap();
        assert!(emulator.debug_cpu_v()[1] <= 7);
    }
}

#[test]
fn traced_cycles_write_an_entry_for_every_instruction() {
    // V0 counts the instructions in the loop
    let mut emulator = Emulator::new(&rom(&[0x7001, 0x1200])).ok().unwrap();
    let mut trace = Vec::new();
    emulator.cycle_traced(&mut trace).unwrap();
    assert!(trace.is_empty());
    emulator.cycle_traced(&mut trace).unwrap();
    assert_eq!(trace.len(), 1);
    assert_eq!((trace[0].pc, trace[0].instruction.opcode, trace[0].cycles), (0x200, 0x7001, 1));
    emulator.cycle_until_cpu_traced(&mut trace).unwrap();
    assert_eq!(trace.len(), 2);
    assert_eq!((trace[1].pc, trace[1].instruction.opcode, trace[1].cycles), (0x202, 0x1200, 2));
    assert_eq!(trace[1].v[0], 1);
    // ticks 3 to 9: seven instructions until the timers count
    emulator.cycle_until_timer_traced(&mut trace).unwrap();
    assert_eq!(trace.len(), 9);
    for (n, entry) in trace.iter().enumerate() {
        assert_eq!(entry.cycles, n as u64 + 1);
        assert_eq!(entry.pc, if n % 2 == 0 { 0x200 } else { 0x202 });
        assert_eq!(entry.v[0] as usize, (n + 1) / 2);
    }
    assert_eq!(emulator.debug_clock_ticks(), 10);
}

#[test]
fn traced_run_from_the_start_has_no_entry_for_the_first_tick() {
    let mut emulator = Emulator::new(&rom(&[0x6A02])).ok().unwrap();
    let mut trace = Vec::new();
    emulator.cycle_until_cpu_traced(&mut trace).unwrap();
    assert_eq!(trace.len(), 1);
    assert_eq!(trace[0].instruction.opcode, 0x6A02);
    assert_eq!(emulator.debug_clock_ticks(), 2);
}

#[test]
fn traced_run_keeps_the_entry_of_the_instruction_that_met_the_fault() {
    let mut emulator = Emulator::new(&rom(&[0x6A02, 0x00EE])).ok().unwrap();
    let mut trace = Vec::new();
    assert_eq!(emulator.cycle_until_timer_traced(&mut trace), Err(Fault::StackUnderflow));
    assert_eq!(trace.len(), 2);
    assert_eq!(trace[1].instruction.opcode, 0x00EE);
    assert_eq!(trace[1].pc, 0x202);
    // an unknown word is fetched too; a program counter out of memory is not
    let mut emulator = Emulator::new(&rom(&[0x1FFF])).ok().unwrap();
    let mut trace = Vec::new();
    assert_eq!(emulator.cycle_until_timer_traced(&mut trace), Err(Fault::FetchOutOfBounds));
    assert_eq!(trace.len(), 1);
}

#[test]
fn plain_and_traced_runs_do_the_same() {
    let program = rom(&[0x6105, 0xF115, 0x7001, 0xA20A, 0xD015, 0x1204]);
    let mut plain = Emulator::new(&program).ok().unwrap();
    let mut traced = Emulator::new(&program).ok().unwrap();
    let mut trace = Vec::new();
    for _ in 0..20 {
        assert_eq!(plain.cycle_until_timer(), traced.cycle_until_timer_traced(&mut trace));
        assert_eq!(plain.cycle_until_cpu(), traced.cycle_until_cpu_traced(&mut trace));
        assert_eq!(plain.cycle(), traced.cycle_traced(&mut trace));
        assert_eq!(plain.debug_cpu_v(), traced.debug_cpu_v());
        assert_eq!(plain.debug_cpu_pc(), traced.debug_cpu_pc());
        assert_eq!(plain.debug_cpu_dt(), traced.debug_cpu_dt());
        assert_eq!(plain.debug_clock_ticks(), traced.debug_clock_ticks());
        assert_eq!(plain.get_framebuffer(), traced.get_framebuffer());
    }
    assert_eq!(trace.len() as u64, traced.debug_cpu_clock().cycles);
}
