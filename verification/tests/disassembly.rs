use chip8::disassembly::Disassembly;
use chip8::instruction::Instruction;

fn text(word: u16) -> String {
    Instruction::new(word).disassembly()
}

#[test]
fn every_operation_has_its_mnemonic() {
    assert_eq!(text(0x00E0), "CLS");
    assert_eq!(text(0x00EE), "RET");
    assert_eq!(text(0x1ABC), "JMP ABC");
    assert_eq!(text(0x2345), "CALL 345");
    assert_eq!(text(0x3A12), "SE VA, 12");
    assert_eq!(text(0x4B0F), "SNE VB, 0F");
    assert_eq!(text(0x5AB0), "SE VA, VB");
    assert_eq!(text(0x6A02), "LD VA, 02");
    assert_eq!(text(0x70FF), "ADD V0, FF");
    assert_eq!(text(0x8120), "LD V1, V2");
    assert_eq!(text(0x8121), "OR V1, V2");
    assert_eq!(text(0x8122), "AND V1, V2");
    assert_eq!(text(0x8123), "XOR V1, V2");
    assert_eq!(text(0x8124), "ADD V1, V2");
    assert_eq!(text(0x8125), "SUB V1, V2");
    assert_eq!(text(0x8126), "SHR V1, V2");
    assert_eq!(text(0x8127), "SUBN V1, V2");
    assert_eq!(text(0x812E), "SHL V1, V2");
    assert_eq!(text(0x9EF0), "SNE VE, VF");
    assert_eq!(text(0xA200), "LD I, 200");
    assert_eq!(text(0xB00A), "JMP V0, 00A");
    assert_eq!(text(0xC93C), "RND V9, 3C");
    assert_eq!(text(0xD01F), "DRW V0, V1, F");
    assert_eq!(text(0xE19E), "SKP V1");
    assert_eq!(text(0xE1A1), "SKNP V1");
    assert_eq!(text(0xF107), "LD V1, DT");
    assert_eq!(text(0xF10A), "LD V1, KEY");
    assert_eq!(text(0xF115), "LD DT, V1");
    assert_eq!(text(0xF118), "LD ST, V1");
    assert_eq!(text(0xF11E), "ADD I, V1");
    assert_eq!(text(0xF129), "LD I, FONT(V1)");
    assert_eq!(text(0xF133), "BCD V1");
    assert_eq!(text(0xF155), "LD [I], V1");
    assert_eq!(text(0xFC65), "LD VC, [I]");
}

#[test]
fn unknown_words_are_question_marks() {
    assert_eq!(text(0x0000), "???");
    assert_eq!(text(0x0ABC), "???");
    assert_eq!(text(0x5AB1), "???");
    assert_eq!(text(0x8AB9), "???");
    assert_eq!(text(0xFFFF), "???");
}

#[test]
fn numbers_are_upper_case_hexadecimal_of_fixed_width() {
    assert_eq!(text(0x1000), "JMP 000");
    assert_eq!(text(0x1FFF), "JMP FFF");
    assert_eq!(text(0x1090), "JMP 090");
    assert_eq!(text(0x6000), "LD V0, 00");
    assert_eq!(text(0x6F9A), "LD VF, 9A");
    assert_eq!(text(0xD9A0), "DRW V9, VA, 0");
}

#[test]
fn text_agrees_with_the_formatter_for_every_word() {
    let mut word: u32 = 0;
    while word <= 0xFFFF {
        let instruction = Instruction::new(word as u16);
        let (x, y, n, nn, nnn) =
            (instruction.x, instruction.y, instruction.n, instruction.nn, instruction.nnn);
        let expected = match instruction.nibbles {
            (0, 0, 0xE, 0) => format!("CLS"),
            (0, 0, 0xE, 0xE) => format!("RET"),
            (0x1, _, _, _) => format!("JMP {:03X}", nnn),
            (0x2, _, _, _) => format!("CALL {:03X}", nnn),
            (0x3, _, _, _) => format!("SE V{:X}, {:02X}", x, nn),
            (0x4, _, _, _) => format!("SNE V{:X}, {:02X}", x, nn),
            (0x5, _, _, 0) => format!("SE V{:X}, V{:X}", x, y),
            (0x6, _, _, _) => format!("LD V{:X}, {:02X}", x, nn),
            (0x7, _, _, _) => format!("ADD V{:X}, {:02X}", x, nn),
            (0x8, _, _, 0) => format!("LD V{:X}, V{:X}", x, y),
            (0x8, _, _, 0x1) => format!("OR V{:X}, V{:X}", x, y),
            (0x8, _, _, 0x2) => format!("AND V{:X}, V{:X}", x, y),
            (0x8, _, _, 0x3) => format!("XOR V{:X}, V{:X}", x, y),
            (0x8, _, _, 0x4) => format!("ADD V{:X}, V{:X}", x, y),
            (0x8, _, _, 0x5) => format!("SUB V{:X}, V{:X}", x, y),
            (0x8, _, _, 0x6) => format!("SHR V{:X}, V{:X}", x, y),
            (0x8, _, _, 0x7) => format!("SUBN V{:X}, V{:X}", x, y),
            (0x8, _, _, 0xE) => format!("SHL V{:X}, V{:X}", x, y),
            (0x9, _, _, 0) => format!("SNE V{:X}, V{:X}", x, y),
            (0xA, _, _, _) => format!("LD I, {:03X}", nnn),
            (0xB, _, _, _) => format!("JMP V0, {:03X}", nnn),
            (0xC, _, _, _) => format!("RND V{:X}, {:02X}", x, nn),
            (0xD, _, _, _) => format!("DRW V{:X}, V{:X}, {:X}", x, y, n),
            (0xE, _, 0x9, 0xE) => format!("SKP V{:X}", x),
            (0xE, _, 0xA, 0x1) => format!("SKNP V{:X}", x),
            (0xF, _, 0, 0x7) => format!("LD V{:X}, DT", x),
            (0xF, _, 0, 0xA) => format!("LD V{:X}, KEY", x),
            (0xF, _, 0x1, 0x5) => format!("LD DT, V{:X}", x),
            (0xF, _, 0x1, 0x8) => format!("LD ST, V{:X}", x),
            (0xF, _, 0x1, 0xE) => format!("ADD I, V{:X}", x),
            (0xF, _, 0x2, 0x9) => format!("LD I, FONT(V{:X})", x),
            (0xF, _, 0x3, 0x3) => format!("BCD V{:X}", x),
            (0xF, _, 0x5, 0x5) => format!("LD [I], V{:X}", x),
            (0xF, _, 0x6, 0x5) => format!("LD V{:X}, [I]", x),
            _ => format!("???"),
        };
        assert_eq!(instruction.disassembly(), expected);
        word += 1;
    }
}

#[test]
fn listing_keeps_address_and_word() {
    let listing = Disassembly::new(Instruction::new(0x6A02), 0x204);
    assert_eq!(listing.address, 0x204);
    assert_eq!(listing.opcode, 0x6A02);
    assert_eq!(listing.disassembly, "LD VA, 02");
}
