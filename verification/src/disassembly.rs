//! Instructions as text, for a debugger.

use vstd::prelude::*;
use crate::instruction::{Instruction, Operation};

verus! {

/// `String::push_str` of the standard library: the text grows by the
/// characters of `more`, in order, at its end.
pub assume_specification[ String::push_str ](text: &mut String, more: &str)
    ensures
        final(text)@ == old(text)@ + more@,
;

/// `String::push` of the standard library: the text grows by the one
/// character `c` at its end.
pub assume_specification[ String::push ](text: &mut String, c: char)
    ensures
        final(text)@ == old(text)@.push(c),
;

/// The upper-case hexadecimal digit for a value below 16.
pub open spec fn hex_digit(value: int) -> char {
    if value < 10 {
        ('0' as int + value) as char
    } else {
        ('A' as int + value - 10) as char
    }
}

/// A value below 16 as one hexadecimal digit.
pub open spec fn hex1(value: int) -> Seq<char> {
    seq![hex_digit(value)]
}

/// A value below 256 as two hexadecimal digits.
pub open spec fn hex2(value: int) -> Seq<char> {
    seq![hex_digit(value / 0x10), hex_digit(value % 0x10)]
}

/// A value below 4096 as three hexadecimal digits.
pub open spec fn hex3(value: int) -> Seq<char> {
    seq![hex_digit(value / 0x100), hex_digit(value / 0x10 % 0x10), hex_digit(value % 0x10)]
}

/// The name of a register: `V` and its index as a hexadecimal digit.
pub open spec fn register(index: int) -> Seq<char> {
    "V"@ + hex1(index)
}

/// An instruction in assembly language: the mnemonic of its operation,
/// then its operands, registers by name and numbers in hexadecimal. A word
/// that selects no operation is written `???`.
pub open spec fn mnemonic(instruction: Instruction) -> Seq<char> {
    let x = register(instruction.x as int);
    let y = register(instruction.y as int);
    let nn = hex2(instruction.nn as int);
    let nnn = hex3(instruction.nnn as int);
    match instruction.spec_operation() {
        Some(Operation::ClearDisplay) => "CLS"@,
        Some(Operation::Return) => "RET"@,
        Some(Operation::Jump) => "JMP "@ + nnn,
        Some(Operation::Call) => "CALL "@ + nnn,
        Some(Operation::SkipIfEqualByte) => "SE "@ + x + ", "@ + nn,
        Some(Operation::SkipIfNotEqualByte) => "SNE "@ + x + ", "@ + nn,
        Some(Operation::SkipIfEqual) => "SE "@ + x + ", "@ + y,
        Some(Operation::LoadByte) => "LD "@ + x + ", "@ + nn,
        Some(Operation::AddByte) => "ADD "@ + x + ", "@ + nn,
        Some(Operation::Move) => "LD "@ + x + ", "@ + y,
        Some(Operation::Or) => "OR "@ + x + ", "@ + y,
        Some(Operation::And) => "AND "@ + x + ", "@ + y,
        Some(Operation::Xor) => "XOR "@ + x + ", "@ + y,
        Some(Operation::Add) => "ADD "@ + x + ", "@ + y,
        Some(Operation::Subtract) => "SUB "@ + x + ", "@ + y,
        Some(Operation::ShiftRight) => "SHR "@ + x + ", "@ + y,
        Some(Operation::SubtractFrom) => "SUBN "@ + x + ", "@ + y,
        Some(Operation::ShiftLeft) => "SHL "@ + x + ", "@ + y,
        Some(Operation::SkipIfNotEqual) => "SNE "@ + x + ", "@ + y,
        Some(Operation::LoadAddress) => "LD I, "@ + nnn,
        Some(Operation::JumpOffset) => "JMP V0, "@ + nnn,
        Some(Operation::Random) => "RND "@ + x + ", "@ + nn,
        Some(Operation::Draw) => "DRW "@ + x + ", "@ + y + ", "@ + hex1(instruction.n as int),
        Some(Operation::SkipIfKey) => "SKP "@ + x,
        Some(Operation::SkipIfNotKey) => "SKNP "@ + x,
        Some(Operation::ReadDelay) => "LD "@ + x + ", DT"@,
        Some(Operation::WaitKey) => "LD "@ + x + ", KEY"@,
        Some(Operation::SetDelay) => "LD DT, "@ + x,
        Some(Operation::SetSound) => "LD ST, "@ + x,
        Some(Operation::AddAddress) => "ADD I, "@ + x,
        Some(Operation::FontAddress) => "LD I, FONT("@ + x + ")"@,
        Some(Operation::StoreDecimal) => "BCD "@ + x,
        Some(Operation::StoreRegisters) => "LD [I], "@ + x,
        Some(Operation::LoadRegisters) => "LD "@ + x + ", [I]"@,
        None => "???"@,
    }
}

fn digit(value: u8) -> (c: char)
    requires
        value < 16,
    ensures
        c == hex_digit(value as int),
{
    if value < 10 {
        (48u8 + value) as char
    } else {
        (65u8 + (value - 10)) as char
    }
}

fn push_register(text: &mut String, index: usize)
    requires
        index < 16,
    ensures
        final(text)@ == old(text)@ + register(index as int),
{
    text.push_str("V");
    text.push(digit(index as u8));
    assert(text@ =~= old(text)@ + register(index as int));
}

fn push_byte(text: &mut String, value: u8)
    ensures
        final(text)@ == old(text)@ + hex2(value as int),
{
    text.push(digit(value / 0x10));
    text.push(digit(value % 0x10));
    assert(text@ =~= old(text)@ + hex2(value as int));
}

fn push_address(text: &mut String, value: u16)
    requires
        value < 0x1000,
    ensures
        final(text)@ == old(text)@ + hex3(value as int),
{
    text.push(digit((value / 0x100) as u8));
    text.push(digit((value / 0x10 % 0x10) as u8));
    text.push(digit((value % 0x10) as u8));
    assert(text@ =~= old(text)@ + hex3(value as int));
}

/// An instruction with its address and its text, as a debugger lists it.
pub struct Disassembly {
    pub address: u16,
    pub opcode: u16,
    pub disassembly: String,
}

impl Disassembly {
    /// The listing of the instruction, found at `address`.
    pub fn new(instruction: Instruction, address: u16) -> (listing: Disassembly)
        requires
            instruction.wf(),
        ensures
            listing.address == address,
            listing.opcode == instruction.opcode,
            listing.disassembly@ == mnemonic(instruction),
    {
        Disassembly { address, opcode: instruction.opcode, disassembly: instruction.disassembly() }
    }
}

impl Instruction {
    /// The instruction in assembly language.
    pub fn disassembly(&self) -> (text: String)
        requires
            self.wf(),
        ensures
            text@ == mnemonic(*self),
    {
        let mut text = String::new();
        let x = self.x;
        let y = self.y;
        let nn = self.nn;
        let nnn = self.nnn;
        match self.operation() {
            Some(Operation::ClearDisplay) => text.push_str("CLS"),
            Some(Operation::Return) => text.push_str("RET"),
            Some(Operation::Jump) => {
                text.push_str("JMP ");
                push_address(&mut text, nnn);
            },
            Some(Operation::Call) => {
                text.push_str("CALL ");
                push_address(&mut text, nnn);
            },
            Some(Operation::LoadAddress) => {
                text.push_str("LD I, ");
                push_address(&mut text, nnn);
            },
            Some(Operation::JumpOffset) => {
                text.push_str("JMP V0, ");
                push_address(&mut text, nnn);
            },
            Some(Operation::SkipIfEqualByte) => self.register_and_byte(&mut text, "SE "),
            Some(Operation::SkipIfNotEqualByte) => self.register_and_byte(&mut text, "SNE "),
            Some(Operation::LoadByte) => self.register_and_byte(&mut text, "LD "),
            Some(Operation::AddByte) => self.register_and_byte(&mut text, "ADD "),
            Some(Operation::Random) => self.register_and_byte(&mut text, "RND "),
            Some(Operation::SkipIfEqual) => self.two_registers(&mut text, "SE "),
            Some(Operation::Move) => self.two_registers(&mut text, "LD "),
            Some(Operation::Or) => self.two_registers(&mut text, "OR "),
            Some(Operation::And) => self.two_registers(&mut text, "AND "),
            Some(Operation::Xor) => self.two_registers(&mut text, "XOR "),
            Some(Operation::Add) => self.two_registers(&mut text, "ADD "),
            Some(Operation::Subtract) => self.two_registers(&mut text, "SUB "),
            Some(Operation::ShiftRight) => self.two_registers(&mut text, "SHR "),
            Some(Operation::SubtractFrom) => self.two_registers(&mut text, "SUBN "),
            Some(Operation::ShiftLeft) => self.two_registers(&mut text, "SHL "),
            Some(Operation::SkipIfNotEqual) => self.two_registers(&mut text, "SNE "),
            Some(Operation::Draw) => {
                self.two_registers(&mut text, "DRW ");
                text.push_str(", ");
                text.push(digit(self.n));
                assert(text@ =~= mnemonic(*self));
            },
            Some(Operation::SkipIfKey) => self.one_register(&mut text, "SKP ", ""),
            Some(Operation::SkipIfNotKey) => self.one_register(&mut text, "SKNP ", ""),
            Some(Operation::ReadDelay) => self.one_register(&mut text, "LD ", ", DT"),
            Some(Operation::WaitKey) => self.one_register(&mut text, "LD ", ", KEY"),
            Some(Operation::SetDelay) => self.one_register(&mut text, "LD DT, ", ""),
            Some(Operation::SetSound) => self.one_register(&mut text, "LD ST, ", ""),
            Some(Operation::AddAddress) => self.one_register(&mut text, "ADD I, ", ""),
            Some(Operation::FontAddress) => self.one_register(&mut text, "LD I, FONT(", ")"),
            Some(Operation::StoreDecimal) => self.one_register(&mut text, "BCD ", ""),
            Some(Operation::StoreRegisters) => self.one_register(&mut text, "LD [I], ", ""),
            Some(Operation::LoadRegisters) => self.one_register(&mut text, "LD ", ", [I]"),
            None => text.push_str("???"),
        }
        proof {
            reveal_strlit("");
        }
        assert(text@ =~= mnemonic(*self));
        text
    }

    /// Writes `name`, the first register, a comma and the byte operand.
    fn register_and_byte(&self, text: &mut String, name: &str)
        requires
            self.wf(),
        ensures
            final(text)@ == old(text)@ + name@ + register(self.x as int) + ", "@ + hex2(
                self.nn as int,
            ),
    {
        text.push_str(name);
        push_register(text, self.x);
        text.push_str(", ");
        push_byte(text, self.nn);
    }

    /// Writes `name` and the two registers with a comma between them.
    fn two_registers(&self, text: &mut String, name: &str)
        requires
            self.wf(),
        ensures
            final(text)@ == old(text)@ + name@ + register(self.x as int) + ", "@ + register(
                self.y as int,
            ),
    {
        text.push_str(name);
        push_register(text, self.x);
        text.push_str(", ");
        push_register(text, self.y);
    }

    /// Writes the first register between `before` and `after`.
    fn one_register(&self, text: &mut String, before: &str, after: &str)
        requires
            self.wf(),
        ensures
            final(text)@ == old(text)@ + before@ + register(self.x as int) + after@,
    {
        text.push_str(before);
        push_register(text, self.x);
        text.push_str(after);
    }
}

} // verus!
