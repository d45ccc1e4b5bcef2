use chip8::instruction::{Instruction, Operation};

#[test]
fn nibbles() {
    let instruction = Instruction::new(0xABCD);

    assert_eq!(instruction.opcode, 0xABCD);
    assert_eq!(instruction.nnn, 0x0BCD);
    assert_eq!(instruction.nn, 0x00CD);
    assert_eq!(instruction.x, 0x000B);
    assert_eq!(instruction.y, 0x000C);
    assert_eq!(instruction.n, 0x000D);
}

#[test]
fn nibbles_are_split_most_significant_first() {
    let instruction = Instruction::new(0xABCD);
    assert_eq!(instruction.nibbles, (0xA, 0xB, 0xC, 0xD));
}

#[test]
fn decode_of_the_extreme_words() {
    let zero = Instruction::new(0x0000);
    assert_eq!(zero.nibbles, (0, 0, 0, 0));
    assert_eq!((zero.nnn, zero.nn, zero.x, zero.y, zero.n), (0, 0, 0, 0, 0));
    let ones = Instruction::new(0xFFFF);
    assert_eq!(ones.nibbles, (0xF, 0xF, 0xF, 0xF));
    assert_eq!((ones.nnn, ones.nn, ones.x, ones.y, ones.n), (0xFFF, 0xFF, 0xF, 0xF, 0xF));
}

#[test]
fn decode_agrees_with_division_for_every_word() {
    let mut word: u32 = 0;
    while word <= 0xFFFF {
        let w = word as u16;
        let instruction = Instruction::new(w);
        assert_eq!(instruction.opcode, w);
        assert_eq!(instruction.nibbles.0 as u16, w / 0x1000);
        assert_eq!(instruction.nibbles.1 as u16, w / 0x100 % 0x10);
        assert_eq!(instruction.nibbles.2 as u16, w / 0x10 % 0x10);
        assert_eq!(instruction.nibbles.3 as u16, w % 0x10);
        assert_eq!(instruction.nnn, w % 0x1000);
        assert_eq!(instruction.nn as u16, w % 0x100);
        assert_eq!(instruction.n as u16, w % 0x10);
        assert_eq!(instruction.x as u16, w / 0x100 % 0x10);
        assert_eq!(instruction.y as u16, w / 0x10 % 0x10);
        word += 1;
    }
}

fn operation_of(word: u16) -> Option<Operation> {
    Instruction::new(word).operation()
}

#[test]
fn every_operation_has_its_pattern() {
    assert_eq!(operation_of(0x00E0), Some(Operation::ClearDisplay));
    assert_eq!(operation_of(0x00EE), Some(Operation::Return));
    assert_eq!(operation_of(0x1234), Some(Operation::Jump));
    assert_eq!(operation_of(0x2345), Some(Operation::Call));
    assert_eq!(operation_of(0x3A12), Some(Operation::SkipIfEqualByte));
    assert_eq!(operation_of(0x4A12), Some(Operation::SkipIfNotEqualByte));
    assert_eq!(operation_of(0x5AB0), Some(Operation::SkipIfEqual));
    assert_eq!(operation_of(0x6A02), Some(Operation::LoadByte));
    assert_eq!(operation_of(0x7A02), Some(Operation::AddByte));
    assert_eq!(operation_of(0x8AB0), Some(Operation::Move));
    assert_eq!(operation_of(0x8AB1), Some(Operation::Or));
    assert_eq!(operation_of(0x8AB2), Some(Operation::And));
    assert_eq!(operation_of(0x8AB3), Some(Operation::Xor));
    assert_eq!(operation_of(0x8AB4), Some(Operation::Add));
    assert_eq!(operation_of(0x8AB5), Some(Operation::Subtract));
    assert_eq!(operation_of(0x8AB6), Some(Operation::ShiftRight));
    assert_eq!(operation_of(0x8AB7), Some(Operation::SubtractFrom));
    assert_eq!(operation_of(0x8ABE), Some(Operation::ShiftLeft));
    assert_eq!(operation_of(0x9AB0), Some(Operation::SkipIfNotEqual));
    assert_eq!(operation_of(0xA200), Some(Operation::LoadAddress));
    assert_eq!(operation_of(0xB200), Some(Operation::JumpOffset));
    assert_eq!(operation_of(0xC0FF), Some(Operation::Random));
    assert_eq!(operation_of(0xD005), Some(Operation::Draw));
    assert_eq!(operation_of(0xE19E), Some(Operation::SkipIfKey));
    assert_eq!(operation_of(0xE1A1), Some(Operation::SkipIfNotKey));
    assert_eq!(operation_of(0xF107), Some(Operation::ReadDelay));
    assert_eq!(operation_of(0xF10A), Some(Operation::WaitKey));
    assert_eq!(operation_of(0xF115), Some(Operation::SetDelay));
    assert_eq!(operation_of(0xF118), Some(Operation::SetSound));
    assert_eq!(operation_of(0xF11E), Some(Operation::AddAddress));
    assert_eq!(operation_of(0xF129), Some(Operation::FontAddress));
    assert_eq!(operation_of(0xF133), Some(Operation::StoreDecimal));
    assert_eq!(operation_of(0xF155), Some(Operation::StoreRegisters));
    assert_eq!(operation_of(0xF165), Some(Operation::LoadRegisters));
}

#[test]
fn words_outside_the_instruction_set_select_nothing() {
    assert_eq!(operation_of(0x0000), None);
    assert_eq!(operation_of(0x0123), None);
    assert_eq!(operation_of(0x00E1), None);
    assert_eq!(operation_of(0x01E0), None);
    assert_eq!(operation_of(0x5AB1), None);
    assert_eq!(operation_of(0x8AB8), None);
    assert_eq!(operation_of(0x8ABF), None);
    assert_eq!(operation_of(0x9AB1), None);
    assert_eq!(operation_of(0xE19F), None);
    assert_eq!(operation_of(0xE1A0), None);
    assert_eq!(operation_of(0xF100), None);
    assert_eq!(operation_of(0xF1FF), None);
    assert_eq!(operation_of(0xFFFF), None);
}

#[test]
fn the_instruction_set_has_its_number_of_words() {
    let mut known: u32 = 0;
    let mut word: u32 = 0;
    while word <= 0xFFFF {
        if operation_of(word as u16).is_some() {
            known += 1;
        }
        word += 1;
    }
    // 2 words without operands, 10 families of 4096, 2 of 256 words,
    // 9 operations of 256, 2 + 9 operations of 16
    assert_eq!(known, 2 + 10 * 4096 + 2 * 256 + 9 * 256 + 2 * 16 + 9 * 16);
}
