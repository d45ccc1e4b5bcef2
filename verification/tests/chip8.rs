use chip8::chip8::Chip8;
use chip8::error::{Fault, LoadError};

#[test]
fn chip8_runs_clear_load_and_jump() {
    let mut chip8 = Chip8::new(&[0x00, 0xE0, 0x6A, 0x02, 0x12, 0x00]).ok().unwrap();
    assert_eq!(chip8.cycle_cpu().unwrap().opcode, 0x00E0);
    assert_eq!(chip8.cycle_cpu().unwrap().opcode, 0x6A02);
    assert_eq!(chip8.cycle_cpu().unwrap().opcode, 0x1200);
    let snapshot = chip8.get_debug();
    assert_eq!(snapshot.cpu().v[0xA], 0x02);
    assert_eq!(snapshot.cpu().pc, 0x200);
    assert_eq!(snapshot.keypad().state, [false; 16]);
    assert!(chip8.get_framebuffer().chunks(4).all(|pixel| pixel == [0, 0, 0, 255]));
}

#[test]
fn chip8_refuses_a_program_that_does_not_fit() {
    match Chip8::new(&vec![0; 3585]) {
        Err(error) => assert_eq!(error, LoadError::TooLarge),
        Ok(_) => panic!("a program that is too large was loaded"),
    }
}

#[test]
fn chip8_timers_are_driven_from_outside() {
    // V1 = 2, sound timer = V1, then spin
    let mut chip8 = Chip8::new(&[0x61, 0x02, 0xF1, 0x18, 0x12, 0x04]).ok().unwrap();
    chip8.cycle_cpu().unwrap();
    chip8.cycle_cpu().unwrap();
    assert!(chip8.beep());
    chip8.cycle_timers();
    assert!(chip8.beep());
    assert_eq!(chip8.get_debug().cpu().st, 1);
    chip8.cycle_timers();
    assert!(!chip8.beep());
    chip8.cycle_timers();
    assert_eq!(chip8.get_debug().cpu().st, 0);
}

#[test]
fn chip8_keys_and_random_byte() {
    let mut chip8 = Chip8::new(&[0xF3, 0x0A, 0xC4, 0x3C]).ok().unwrap();
    chip8.cycle_cpu().unwrap();
    assert_eq!(chip8.get_debug().cpu().pc, 0x200);
    chip8.update_key(6, true);
    assert!(chip8.get_debug().keypad().state[6]);
    chip8.cycle_cpu().unwrap();
    assert_eq!(chip8.get_debug().cpu().v[3], 6);
    chip8.cycle_cpu_with(0xFF).unwrap();
    assert_eq!(chip8.get_debug().cpu().v[4], 0x3C);
    assert_eq!(chip8.cycle_cpu(), Err(Fault::UnknownOpcode(0)));
}

#[test]
fn chip8_draws_a_glyph() {
    // V1 = 7, I = glyph of V1, draw it at (V1, V1)
    let mut chip8 = Chip8::new(&[0x61, 0x07, 0xF1, 0x29, 0xD1, 0x15]).ok().unwrap();
    for _ in 0..3 {
        chip8.cycle_cpu().unwrap();
    }
    let frame = chip8.get_framebuffer();
    let rows = [0xF0u8, 0x10, 0x20, 0x40, 0x40];
    for y in 0..32usize {
        for x in 0..64usize {
            let on = (7..12).contains(&y) && (7..15).contains(&x) && (rows[y - 7] >> (14 - x)) & 1 == 1;
            assert_eq!(frame[4 * (x + 64 * y)], if on { 255 } else { 0 });
        }
    }
    assert_eq!(chip8.get_debug().cpu().i, 35);
    assert_eq!(chip8.get_debug().cpu().v[0xF], 0);
}
