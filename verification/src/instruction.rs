use vstd::prelude::*;

verus! {

/// One decoded instruction with its operands.
///
/// `x` and `y` name registers, `nn` is an eight-bit immediate, `nnn` a
/// twelve-bit address and `n` a four-bit row count.
#[derive(Clone, Copy, Debug, PartialEq, Eq)]
pub enum Instruction {
    /// `00E0`: turn every pixel off.
    ClearScreen,
    /// `00EE`: return from a subroutine.
    Return,
    /// `1nnn`: jump to `nnn`.
    Jump { nnn: u16 },
    /// `2nnn`: call the subroutine at `nnn`.
    Call { nnn: u16 },
    /// `3xnn`: skip the next instruction if `Vx == nn`.
    SkipEqImm { x: u8, nn: u8 },
    /// `4xnn`: skip the next instruction if `Vx != nn`.
    SkipNeImm { x: u8, nn: u8 },
    /// `5xy0`: skip the next instruction if `Vx == Vy`.
    SkipEq { x: u8, y: u8 },
    /// `6xnn`: `Vx = nn`.
    LoadImm { x: u8, nn: u8 },
    /// `7xnn`: `Vx = Vx + nn`, wrapping, no flag.
    AddImm { x: u8, nn: u8 },
    /// `8xy0`: `Vx = Vy`.
    Move { x: u8, y: u8 },
    /// `8xy1`: `Vx = Vx | Vy`.
    Or { x: u8, y: u8 },
    /// `8xy2`: `Vx = Vx & Vy`.
    And { x: u8, y: u8 },
    /// `8xy3`: `Vx = Vx ^ Vy`.
    Xor { x: u8, y: u8 },
    /// `8xy4`: `Vx = Vx + Vy`, wrapping; `VF` is the carry.
    Add { x: u8, y: u8 },
    /// `8xy5`: the subtract slot. On this machine it adds: `Vx = Vx + Vy`,
    /// wrapping, and `VF` is the carry of that sum.
    Sub { x: u8, y: u8 },
    /// `8xy6`: `VF` is the low nibble of `Vx`, then `Vx = Vx >> 1`.
    ShiftRight { x: u8, y: u8 },
    /// `8xy7`: the reverse-subtract slot. On this machine it adds:
    /// `Vx = Vy + Vx`, wrapping, and `VF` is the carry of that sum.
    SubReversed { x: u8, y: u8 },
    /// `8xyE`: `VF` is the top bit of `Vx`, then `Vx = Vx << 1`.
    ShiftLeft { x: u8, y: u8 },
    /// `9xy0`: skip the next instruction if `Vx != Vy`.
    SkipNe { x: u8, y: u8 },
    /// `Annn`: `I = nnn`.
    LoadIndex { nnn: u16 },
    /// `Bnnn`: jump to `V0 + nnn`.
    JumpOffset { nnn: u16 },
    /// `Dxyn`: draw the `n`-row sprite at `I` to `(Vx, Vy)`.
    Draw { x: u8, y: u8, n: u8 },
    /// `Fx15`: `delay_timer = Vx`.
    SetDelay { x: u8 },
    /// `Fx33`: store the decimal digits of `Vx` at `I`, `I+1`, `I+2`.
    StoreBcd { x: u8 },
    /// `Fx55`: store `V0..=Vx` to memory from `I` on.
    StoreRegisters { x: u8 },
    /// `Fx65`: load `V0..=Vx` from memory from `I` on.
    LoadRegisters { x: u8 },
}

impl Instruction {
    /// The operands are within the widths of their fields in the
    /// instruction word.
    pub open spec fn wf(self) -> bool {
        match self {
            Instruction::ClearScreen | Instruction::Return => true,
            Instruction::Jump { nnn }
            | Instruction::Call { nnn }
            | Instruction::LoadIndex { nnn }
            | Instruction::JumpOffset { nnn } => nnn < 0x1000,
            Instruction::SkipEqImm { x, nn }
            | Instruction::SkipNeImm { x, nn }
            | Instruction::LoadImm { x, nn }
            | Instruction::AddImm { x, nn } => x < 16,
            Instruction::SkipEq { x, y }
            | Instruction::Move { x, y }
            | Instruction::Or { x, y }
            | Instruction::And { x, y }
            | Instruction::Xor { x, y }
            | Instruction::Add { x, y }
            | Instruction::Sub { x, y }
            | Instruction::ShiftRight { x, y }
            | Instruction::SubReversed { x, y }
            | Instruction::ShiftLeft { x, y }
            | Instruction::SkipNe { x, y } => x < 16 && y < 16,
            Instruction::Draw { x, y, n } => x < 16 && y < 16 && n < 16,
            Instruction::SetDelay { x }
            | Instruction::StoreBcd { x }
            | Instruction::StoreRegisters { x }
            | Instruction::LoadRegisters { x } => x < 16,
        }
    }
}

/// The instruction that a sixteen-bit word encodes, or `None` where the
/// word matches no pattern of the instruction set.
///
/// The word is read as four nibbles `a x y n`, most significant first;
/// `nn` is its low byte and `nnn` its low twelve bits.
pub open spec fn spec_decode(opcode: u16) -> Option<Instruction> {
    let a = opcode / 0x1000;
    let x = ((opcode / 0x100) % 0x10) as u8;
    let y = ((opcode / 0x10) % 0x10) as u8;
    let n = (opcode % 0x10) as u8;
    let nn = (opcode % 0x100) as u8;
    let nnn = (opcode % 0x1000) as u16;
    if opcode == 0x00E0 {
        Some(Instruction::ClearScreen)
    } else if opcode == 0x00EE {
        Some(Instruction::Return)
    } else if a == 0x1 {
        Some(Instruction::Jump { nnn })
    } else if a == 0x2 {
        Some(Instruction::Call { nnn })
    } else if a == 0x3 {
        Some(Instruction::SkipEqImm { x, nn })
    } else if a == 0x4 {
        Some(Instruction::SkipNeImm { x, nn })
    } else if a == 0x5 && n == 0x0 {
        Some(Instruction::SkipEq { x, y })
    } else if a == 0x6 {
        Some(Instruction::LoadImm { x, nn })
    } else if a == 0x7 {
        Some(Instruction::AddImm { x, nn })
    } else if a == 0x8 && n == 0x0 {
        Some(Instruction::Move { x, y })
    } else if a == 0x8 && n == 0x1 {
        Some(Instruction::Or { x, y })
    } else if a == 0x8 && n == 0x2 {
        Some(Instruction::And { x, y })
    } else if a == 0x8 && n == 0x3 {
        Some(Instruction::Xor { x, y })
    } else if a == 0x8 && n == 0x4 {
        Some(Instruction::Add { x, y })
    } else if a == 0x8 && n == 0x5 {
        Some(Instruction::Sub { x, y })
    } else if a == 0x8 && n == 0x6 {
        Some(Instruction::ShiftRight { x, y })
    } else if a == 0x8 && n == 0x7 {
        Some(Instruction::SubReversed { x, y })
    } else if a == 0x8 && n == 0xE {
        Some(Instruction::ShiftLeft { x, y })
    } else if a == 0x9 && n == 0x0 {
        Some(Instruction::SkipNe { x, y })
    } else if a == 0xA {
        Some(Instruction::LoadIndex { nnn })
    } else if a == 0xB {
        Some(Instruction::JumpOffset { nnn })
    } else if a == 0xD {
        Some(Instruction::Draw { x, y, n })
    } else if a == 0xF && nn == 0x15 {
        Some(Instruction::SetDelay { x })
    } else if a == 0xF && nn == 0x33 {
        Some(Instruction::StoreBcd { x })
    } else if a == 0xF && nn == 0x55 {
        Some(Instruction::StoreRegisters { x })
    } else if a == 0xF && nn == 0x65 {
        Some(Instruction::LoadRegisters { x })
    } else {
        None
    }
}

/// Decodes one instruction word: first by its top nibble, then, where that
/// does not settle it, by its last nibble or last byte.
pub fn decode(opcode: u16) -> (r: Option<Instruction>)
    ensures
        r == spec_decode(opcode),
        r matches Some(i) ==> i.wf(),
{
    let a = ((opcode & 0xF000) >> 12) as u8;
    let x = ((opcode & 0x0F00) >> 8) as u8;
    let y = ((opcode & 0x00F0) >> 4) as u8;
    let n = (opcode & 0x000F) as u8;
    let nn = (opcode & 0x00FF) as u8;
    let nnn = opcode & 0x0FFF;
    assert(((opcode & 0xF000) >> 12) == opcode / 0x1000) by (bit_vector);
    assert(((opcode & 0x0F00) >> 8) == (opcode / 0x100) % 0x10) by (bit_vector);
    assert(((opcode & 0x00F0) >> 4) == (opcode / 0x10) % 0x10) by (bit_vector);
    assert((opcode & 0x000F) == opcode % 0x10) by (bit_vector);
    assert((opcode & 0x00FF) == opcode % 0x100) by (bit_vector);
    assert((opcode & 0x0FFF) == opcode % 0x1000) by (bit_vector);
    match (a, x, y, n) {
        (0x0, 0x0, 0xE, 0x0) => Some(Instruction::ClearScreen),
        (0x0, 0x0, 0xE, 0xE) => Some(Instruction::Return),
        (0x1, _, _, _) => Some(Instruction::Jump { nnn }),
        (0x2, _, _, _) => Some(Instruction::Call { nnn }),
        (0x3, _, _, _) => Some(Instruction::SkipEqImm { x, nn }),
        (0x4, _, _, _) => Some(Instruction::SkipNeImm { x, nn }),
        (0x5, _, _, 0x0) => Some(Instruction::SkipEq { x, y }),
        (0x6, _, _, _) => Some(Instruction::LoadImm { x, nn }),
        (0x7, _, _, _) => Some(Instruction::AddImm { x, nn }),
        (0x8, _, _, 0x0) => Some(Instruction::Move { x, y }),
        (0x8, _, _, 0x1) => Some(Instruction::Or { x, y }),
        (0x8, _, _, 0x2) => Some(Instruction::And { x, y }),
        (0x8, _, _, 0x3) => Some(Instruction::Xor { x, y }),
        (0x8, _, _, 0x4) => Some(Instruction::Add { x, y }),
        (0x8, _, _, 0x5) => Some(Instruction::Sub { x, y }),
        (0x8, _, _, 0x6) => Some(Instruction::ShiftRight { x, y }),
        (0x8, _, _, 0x7) => Some(Instruction::SubReversed { x, y }),
        (0x8, _, _, 0xE) => Some(Instruction::ShiftLeft { x, y }),
        (0x9, _, _, 0x0) => Some(Instruction::SkipNe { x, y }),
        (0xA, _, _, _) => Some(Instruction::LoadIndex { nnn }),
        (0xB, _, _, _) => Some(Instruction::JumpOffset { nnn }),
        (0xD, _, _, _) => Some(Instruction::Draw { x, y, n }),
        (0xF, _, 0x1, 0x5) => Some(Instruction::SetDelay { x }),
        (0xF, _, 0x3, 0x3) => Some(Instruction::StoreBcd { x }),
        (0xF, _, 0x5, 0x5) => Some(Instruction::StoreRegisters { x }),
        (0xF, _, 0x6, 0x5) => Some(Instruction::LoadRegisters { x }),
        _ => None,
    }
}

} // verus!
