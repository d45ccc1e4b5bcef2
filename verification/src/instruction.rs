//! Instruction words and their decoding.

use vstd::prelude::*;

verus! {

/// The operation that an instruction word selects.
///
/// The operands are not part of it: they are the fields of the
/// [`Instruction`] that the operation was read from.
#[derive(Clone, Copy, Debug, PartialEq, Eq, Structural)]
pub enum Operation {
    /// `00E0`: clear the display.
    ClearDisplay,
    /// `00EE`: return from a subroutine.
    Return,
    /// `1nnn`: jump to `nnn`.
    Jump,
    /// `2nnn`: call the subroutine at `nnn`.
    Call,
    /// `3xnn`: skip the next instruction if `Vx == nn`.
    SkipIfEqualByte,
    /// `4xnn`: skip the next instruction if `Vx != nn`.
    SkipIfNotEqualByte,
    /// `5xy0`: skip the next instruction if `Vx == Vy`.
    SkipIfEqual,
    /// `6xnn`: `Vx = nn`.
    LoadByte,
    /// `7xnn`: `Vx = Vx + nn`, wrapping at 8 bits, without a flag.
    AddByte,
    /// `8xy0`: `Vx = Vy`.
    Move,
    /// `8xy1`: `Vx = Vx | Vy`.
    Or,
    /// `8xy2`: `Vx = Vx & Vy`.
    And,
    /// `8xy3`: `Vx = Vx ^ Vy`.
    Xor,
    /// `8xy4`: `Vx = Vx + Vy`, then `VF` = carry.
    Add,
    /// `8xy5`: `Vx = Vx - Vy`, then `VF` = no borrow.
    Subtract,
    /// `8xy6`: `Vx = Vx >> 1`, then `VF` = the bit shifted out.
    ShiftRight,
    /// `8xy7`: `Vx = Vy - Vx`, then `VF` = no borrow.
    SubtractFrom,
    /// `8xyE`: `Vx = Vx << 1`, then `VF` = the bit shifted out.
    ShiftLeft,
    /// `9xy0`: skip the next instruction if `Vx != Vy`.
    SkipIfNotEqual,
    /// `Annn`: `I = nnn`.
    LoadAddress,
    /// `Bnnn`: jump to `nnn + V0`.
    JumpOffset,
    /// `Cxnn`: `Vx` = a random byte, masked by `nn`.
    Random,
    /// `Dxyn`: draw `n` sprite rows from `I` at `(Vx, Vy)`, `VF` = collision.
    Draw,
    /// `Ex9E`: skip the next instruction if key `Vx` is pressed.
    SkipIfKey,
    /// `ExA1`: skip the next instruction if key `Vx` is not pressed.
    SkipIfNotKey,
    /// `Fx07`: `Vx` = delay timer.
    ReadDelay,
    /// `Fx0A`: wait for a key and store its index in `Vx`.
    WaitKey,
    /// `Fx15`: delay timer = `Vx`.
    SetDelay,
    /// `Fx18`: sound timer = `Vx`.
    SetSound,
    /// `Fx1E`: `I = I + Vx`, wrapping at 16 bits, without a flag.
    AddAddress,
    /// `Fx29`: `I` = address of the font glyph for `Vx`.
    FontAddress,
    /// `Fx33`: store the three decimal digits of `Vx` at `I`, `I + 1`, `I + 2`.
    StoreDecimal,
    /// `Fx55`: store `V0..=Vx` at `I`.
    StoreRegisters,
    /// `Fx65`: load `V0..=Vx` from `I`.
    LoadRegisters,
}

/// An instruction word together with the operand fields read from it.
#[derive(Clone, Copy, Debug, PartialEq, Eq)]
pub struct Instruction {
    /// The word itself.
    pub opcode: u16,
    /// The word's four 4-bit groups, most significant first.
    pub nibbles: (u8, u8, u8, u8),
    /// The lowest 12 bits: an address.
    pub nnn: u16,
    /// The lowest 8 bits: a byte operand.
    pub nn: u8,
    /// The lower 4 bits of the high byte: the first register index.
    pub x: usize,
    /// The upper 4 bits of the low byte: the second register index.
    pub y: usize,
    /// The lowest 4 bits: a sprite height.
    pub n: u8,
}

impl Instruction {
    /// The fields of `opcode`, by division and remainder.
    pub open spec fn decode(opcode: u16) -> Instruction {
        Instruction {
            opcode,
            nibbles: (
                (opcode / 0x1000) as u8,
                (opcode / 0x100 % 0x10) as u8,
                (opcode / 0x10 % 0x10) as u8,
                (opcode % 0x10) as u8,
            ),
            nnn: (opcode % 0x1000) as u16,
            nn: (opcode % 0x100) as u8,
            x: (opcode / 0x100 % 0x10) as usize,
            y: (opcode / 0x10 % 0x10) as usize,
            n: (opcode % 0x10) as u8,
        }
    }

    /// Whether the fields are those of the word in `opcode`.
    pub open spec fn wf(self) -> bool {
        self == Instruction::decode(self.opcode)
    }

    /// Splits an instruction word into its fields. Every word decodes.
    pub fn new(opcode: u16) -> (instruction: Instruction)
        ensures
            instruction == Instruction::decode(opcode),
            instruction.wf(),
    {
        let nibbles: (u8, u8, u8, u8) = (
            ((opcode & 0xF000) >> 12) as u8,
            ((opcode & 0x0F00) >> 8) as u8,
            ((opcode & 0x00F0) >> 4) as u8,
            (opcode & 0x000F) as u8,
        );
        assert(((opcode & 0xF000) >> 12) as u8 == (opcode / 0x1000) as u8) by (bit_vector);
        assert(((opcode & 0x0F00) >> 8) as u8 == (opcode / 0x100 % 0x10) as u8) by (bit_vector);
        assert(((opcode & 0x00F0) >> 4) as u8 == (opcode / 0x10 % 0x10) as u8) by (bit_vector);
        assert((opcode & 0x000F) as u8 == (opcode % 0x10) as u8) by (bit_vector);

        let nnn: u16 = ((nibbles.1 as u16) << 8) | ((nibbles.2 as u16) << 4) | (nibbles.3 as u16);
        let nn: u8 = (nibbles.2 << 4) | nibbles.3;
        let x: usize = nibbles.1 as usize;
        let y: usize = nibbles.2 as usize;
        let n: u8 = nibbles.3;
        assert(((((opcode / 0x100 % 0x10) as u8) as u16) << 8)
            | ((((opcode / 0x10 % 0x10) as u8) as u16) << 4)
            | (((opcode % 0x10) as u8) as u16) == (opcode % 0x1000) as u16) by (bit_vector);
        assert((((opcode / 0x10 % 0x10) as u8) << 4) | ((opcode % 0x10) as u8)
            == (opcode % 0x100) as u8) by (bit_vector);

        Instruction { opcode, nibbles, nnn, nn, x, y, n }
    }

    /// The operation that the word selects, or `None` where its nibbles
    /// match no operation of the instruction set.
    pub open spec fn spec_operation(&self) -> Option<Operation> {
        match self.nibbles {
            (0, 0, 0xE, 0) => Some(Operation::ClearDisplay),
            (0, 0, 0xE, 0xE) => Some(Operation::Return),
            (0x1, _, _, _) => Some(Operation::Jump),
            (0x2, _, _, _) => Some(Operation::Call),
            (0x3, _, _, _) => Some(Operation::SkipIfEqualByte),
            (0x4, _, _, _) => Some(Operation::SkipIfNotEqualByte),
            (0x5, _, _, 0) => Some(Operation::SkipIfEqual),
            (0x6, _, _, _) => Some(Operation::LoadByte),
            (0x7, _, _, _) => Some(Operation::AddByte),
            (0x8, _, _, 0) => Some(Operation::Move),
            (0x8, _, _, 0x1) => Some(Operation::Or),
            (0x8, _, _, 0x2) => Some(Operation::And),
            (0x8, _, _, 0x3) => Some(Operation::Xor),
            (0x8, _, _, 0x4) => Some(Operation::Add),
            (0x8, _, _, 0x5) => Some(Operation::Subtract),
            (0x8, _, _, 0x6) => Some(Operation::ShiftRight),
            (0x8, _, _, 0x7) => Some(Operation::SubtractFrom),
            (0x8, _, _, 0xE) => Some(Operation::ShiftLeft),
            (0x9, _, _, 0) => Some(Operation::SkipIfNotEqual),
            (0xA, _, _, _) => Some(Operation::LoadAddress),
            (0xB, _, _, _) => Some(Operation::JumpOffset),
            (0xC, _, _, _) => Some(Operation::Random),
            (0xD, _, _, _) => Some(Operation::Draw),
            (0xE, _, 0x9, 0xE) => Some(Operation::SkipIfKey),
            (0xE, _, 0xA, 0x1) => Some(Operation::SkipIfNotKey),
            (0xF, _, 0, 0x7) => Some(Operation::ReadDelay),
            (0xF, _, 0, 0xA) => Some(Operation::WaitKey),
            (0xF, _, 0x1, 0x5) => Some(Operation::SetDelay),
            (0xF, _, 0x1, 0x8) => Some(Operation::SetSound),
            (0xF, _, 0x1, 0xE) => Some(Operation::AddAddress),
            (0xF, _, 0x2, 0x9) => Some(Operation::FontAddress),
            (0xF, _, 0x3, 0x3) => Some(Operation::StoreDecimal),
            (0xF, _, 0x5, 0x5) => Some(Operation::StoreRegisters),
            (0xF, _, 0x6, 0x5) => Some(Operation::LoadRegisters),
            _ => None,
        }
    }

    /// Classifies the word: the operation it selects, if any.
    #[verifier::when_used_as_spec(spec_operation)]
    pub fn operation(&self) -> (operation: Option<Operation>)
        ensures
            operation == self.spec_operation(),
    {
        match self.nibbles {
            (0, 0, 0xE, 0) => Some(Operation::ClearDisplay),
            (0, 0, 0xE, 0xE) => Some(Operation::Return),
            (0x1, _, _, _) => Some(Operation::Jump),
            (0x2, _, _, _) => Some(Operation::Call),
            (0x3, _, _, _) => Some(Operation::SkipIfEqualByte),
            (0x4, _, _, _) => Some(Operation::SkipIfNotEqualByte),
            (0x5, _, _, 0) => Some(Operation::SkipIfEqual),
            (0x6, _, _, _) => Some(Operation::LoadByte),
            (0x7, _, _, _) => Some(Operation::AddByte),
            (0x8, _, _, 0) => Some(Operation::Move),
            (0x8, _, _, 0x1) => Some(Operation::Or),
            (0x8, _, _, 0x2) => Some(Operation::And),
            (0x8, _, _, 0x3) => Some(Operation::Xor),
            (0x8, _, _, 0x4) => Some(Operation::Add),
            (0x8, _, _, 0x5) => Some(Operation::Subtract),
            (0x8, _, _, 0x6) => Some(Operation::ShiftRight),
            (0x8, _, _, 0x7) => Some(Operation::SubtractFrom),
            (0x8, _, _, 0xE) => Some(Operation::ShiftLeft),
            (0x9, _, _, 0) => Some(Operation::SkipIfNotEqual),
            (0xA, _, _, _) => Some(Operation::LoadAddress),
            (0xB, _, _, _) => Some(Operation::JumpOffset),
            (0xC, _, _, _) => Some(Operation::Random),
            (0xD, _, _, _) => Some(Operation::Draw),
            (0xE, _, 0x9, 0xE) => Some(Operation::SkipIfKey),
            (0xE, _, 0xA, 0x1) => Some(Operation::SkipIfNotKey),
            (0xF, _, 0, 0x7) => Some(Operation::ReadDelay),
            (0xF, _, 0, 0xA) => Some(Operation::WaitKey),
            (0xF, _, 0x1, 0x5) => Some(Operation::SetDelay),
            (0xF, _, 0x1, 0x8) => Some(Operation::SetSound),
            (0xF, _, 0x1, 0xE) => Some(Operation::AddAddress),
            (0xF, _, 0x2, 0x9) => Some(Operation::FontAddress),
            (0xF, _, 0x3, 0x3) => Some(Operation::StoreDecimal),
            (0xF, _, 0x5, 0x5) => Some(Operation::StoreRegisters),
            (0xF, _, 0x6, 0x5) => Some(Operation::LoadRegisters),
            _ => None,
        }
    }
}

} // verus!
