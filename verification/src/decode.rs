//! Decoding a 16-bit instruction word into the closed set of instructions.
//!
//! The top nibble selects the opcode family; some families use the bottom
//! nibble or bottom byte as a sub-selector.  `x` and `y` are 4-bit register
//! indices (bits 11..8 and 7..4), `kk` the low byte, `nnn` the low 12 bits.

use vstd::prelude::*;

verus! {

/// The `x` field of an instruction word: bits 11..8.
pub open spec fn op_x(op: u16) -> u8 {
    ((op >> 8) & 0xF) as u8
}

/// The `y` field of an instruction word: bits 7..4.
pub open spec fn op_y(op: u16) -> u8 {
    ((op >> 4) & 0xF) as u8
}

/// The `kk` field of an instruction word: the low byte.
pub open spec fn op_kk(op: u16) -> u8 {
    (op & 0xFF) as u8
}

/// The `nnn` field of an instruction word: the low 12 bits.
pub open spec fn op_nnn(op: u16) -> u16 {
    op & 0xFFF
}

/// The `n` field of an instruction word: the low nibble.
pub open spec fn op_n(op: u16) -> u8 {
    (op & 0xF) as u8
}

/// The operand fields always fit their nominal widths.
pub proof fn lemma_field_bounds(op: u16)
    by (bit_vector)
    ensures
        (op >> 8) & 0xF < 16,
        (op >> 4) & 0xF < 16,
        op & 0xF < 16,
        op & 0xFF < 256,
        op & 0xFFF < 4096,
        op >> 12 < 16,
{
}

/// One decoded instruction.  `Unknown` stands for every word whose family
/// or sub-selector matches no rule.
#[derive(Clone, Copy, PartialEq, Eq, Structural, Debug)]
pub enum Instr {
    /// 00E0: clear the screen.
    Cls,
    /// 00EE: return from a subroutine.
    Ret,
    /// 1nnn: jump to nnn.
    Jump { nnn: u16 },
    /// 2nnn: call the subroutine at nnn.
    Call { nnn: u16 },
    /// 3xkk: skip the next instruction if Vx == kk.
    SkipEqByte { x: u8, kk: u8 },
    /// 4xkk: skip the next instruction if Vx != kk.
    SkipNeByte { x: u8, kk: u8 },
    /// 5xy0: skip the next instruction if Vx == Vy.
    SkipEqReg { x: u8, y: u8 },
    /// 6xkk: Vx = kk.
    SetByte { x: u8, kk: u8 },
    /// 7xkk: Vx = Vx + kk, wrapping.
    AddByte { x: u8, kk: u8 },
    /// 8xy0: Vx = Vy.
    Copy { x: u8, y: u8 },
    /// 8xy1: Vx = Vx | Vy.
    Or { x: u8, y: u8 },
    /// 8xy2: Vx = Vx & Vy.
    And { x: u8, y: u8 },
    /// 8xy3: Vx = Vx ^ Vy.
    Xor { x: u8, y: u8 },
    /// 8xy4: Vx = Vx + Vy wrapping; VF = 1 on carry, else untouched.
    AddReg { x: u8, y: u8 },
    /// 8xy5: Vx = Vx - Vy wrapping; VF = 1 if Vx > Vy else 0.
    SubReg { x: u8, y: u8 },
    /// 8xy6: VF = Vx & 1; Vx = Vx >> 1.
    ShiftRight { x: u8 },
    /// 8xy7: Vx = Vy - Vx wrapping; VF = 0 on borrow else 1.
    SubFrom { x: u8, y: u8 },
    /// 8xyE: VF = Vx & 0x80 (not normalized); Vx = Vx << 1.
    ShiftLeft { x: u8 },
    /// 9xy0: skip the next instruction if Vx != Vy.
    SkipNeReg { x: u8, y: u8 },
    /// Annn: I = nnn.
    SetIndex { nnn: u16 },
    /// Bnnn: jump to V0 + nnn.
    JumpPlus { nnn: u16 },
    /// Cxkk: Vx = random byte & kk.
    Random { x: u8, kk: u8 },
    /// Dxyn: draw an n-row sprite from memory[I..] at (Vx, Vy); VF = collision.
    Draw { x: u8, y: u8, n: u8 },
    /// Ex9E: skip the next instruction if key Vx is down.
    SkipKey { x: u8 },
    /// ExA1: skip the next instruction if key Vx is not down.
    SkipNoKey { x: u8 },
    /// Fx07: Vx = delay timer.
    ReadDelay { x: u8 },
    /// Fx0A: poll the keypad once; for each key held, Vx = key and pc += 2.
    WaitKey { x: u8 },
    /// Fx15: delay timer = Vx.
    SetDelay { x: u8 },
    /// Fx18: sound timer = Vx.
    SetSound { x: u8 },
    /// Fx1E: I = I + Vx, wrapping.
    AddIndex { x: u8 },
    /// Fx29: I = Vx * 5, the font glyph base address.
    FontAddr { x: u8 },
    /// Fx33: store the decimal digits of Vx at memory[I..I+3].
    StoreDigits { x: u8 },
    /// Fx55: copy V0..=Vx into memory[I..].
    StoreRegs { x: u8 },
    /// Fx65: copy memory[I..] into V0..=Vx.
    LoadRegs { x: u8 },
    /// Any word that matches no rule.
    Unknown,
}

/// The instruction denoted by the word `op`.
pub open spec fn spec_decode(op: u16) -> Instr {
    if op == 0x00E0 {
        Instr::Cls
    } else if op == 0x00EE {
        Instr::Ret
    } else {
        let fam = op >> 12;
        if fam == 0x1 {
            Instr::Jump { nnn: op_nnn(op) }
        } else if fam == 0x2 {
            Instr::Call { nnn: op_nnn(op) }
        } else if fam == 0x3 {
            Instr::SkipEqByte { x: op_x(op), kk: op_kk(op) }
        } else if fam == 0x4 {
            Instr::SkipNeByte { x: op_x(op), kk: op_kk(op) }
        } else if fam == 0x5 {
            Instr::SkipEqReg { x: op_x(op), y: op_y(op) }
        } else if fam == 0x6 {
            Instr::SetByte { x: op_x(op), kk: op_kk(op) }
        } else if fam == 0x7 {
            Instr::AddByte { x: op_x(op), kk: op_kk(op) }
        } else if fam == 0x8 {
            let sub = op & 0xF;
            if sub == 0x0 {
                Instr::Copy { x: op_x(op), y: op_y(op) }
            } else if sub == 0x1 {
                Instr::Or { x: op_x(op), y: op_y(op) }
            } else if sub == 0x2 {
                Instr::And { x: op_x(op), y: op_y(op) }
            } else if sub == 0x3 {
                Instr::Xor { x: op_x(op), y: op_y(op) }
            } else if sub == 0x4 {
                Instr::AddReg { x: op_x(op), y: op_y(op) }
            } else if sub == 0x5 {
                Instr::SubReg { x: op_x(op), y: op_y(op) }
            } else if sub == 0x6 {
                Instr::ShiftRight { x: op_x(op) }
            } else if sub == 0x7 {
                Instr::SubFrom { x: op_x(op), y: op_y(op) }
            } else if sub == 0xE {
                Instr::ShiftLeft { x: op_x(op) }
            } else {
                Instr::Unknown
            }
        } else if fam == 0x9 {
            Instr::SkipNeReg { x: op_x(op), y: op_y(op) }
        } else if fam == 0xA {
            Instr::SetIndex { nnn: op_nnn(op) }
        } else if fam == 0xB {
            Instr::JumpPlus { nnn: op_nnn(op) }
        } else if fam == 0xC {
            Instr::Random { x: op_x(op), kk: op_kk(op) }
        } else if fam == 0xD {
            Instr::Draw { x: op_x(op), y: op_y(op), n: op_n(op) }
        } else if fam == 0xE {
            let sub = op & 0xFF;
            if sub == 0x9E {
                Instr::SkipKey { x: op_x(op) }
            } else if sub == 0xA1 {
                Instr::SkipNoKey { x: op_x(op) }
            } else {
                Instr::Unknown
            }
        } else if fam == 0xF {
            let sub = op & 0xFF;
            if sub == 0x07 {
                Instr::ReadDelay { x: op_x(op) }
            } else if sub == 0x0A {
                Instr::WaitKey { x: op_x(op) }
            } else if sub == 0x15 {
                Instr::SetDelay { x: op_x(op) }
            } else if sub == 0x18 {
                Instr::SetSound { x: op_x(op) }
            } else if sub == 0x1E {
                Instr::AddIndex { x: op_x(op) }
            } else if sub == 0x29 {
                Instr::FontAddr { x: op_x(op) }
            } else if sub == 0x33 {
                Instr::StoreDigits { x: op_x(op) }
            } else if sub == 0x55 {
                Instr::StoreRegs { x: op_x(op) }
            } else if sub == 0x65 {
                Instr::LoadRegs { x: op_x(op) }
            } else {
                Instr::Unknown
            }
        } else {
            Instr::Unknown
        }
    }
}

/// Decodes the word `op`.
pub fn decode(op: u16) -> (inst: Instr)
    ensures
        inst == spec_decode(op),
{
    proof {
        lemma_field_bounds(op);
    }
    if op == 0x00E0 {
        return Instr::Cls;
    }
    if op == 0x00EE {
        return Instr::Ret;
    }
    let x = ((op >> 8) & 0xF) as u8;
    let y = ((op >> 4) & 0xF) as u8;
    let kk = (op & 0xFF) as u8;
    let nnn = op & 0xFFF;
    let n = (op & 0xF) as u8;
    let fam = op >> 12;
    match fam {
        0x1 => Instr::Jump { nnn },
        0x2 => Instr::Call { nnn },
        0x3 => Instr::SkipEqByte { x, kk },
        0x4 => Instr::SkipNeByte { x, kk },
        0x5 => Instr::SkipEqReg { x, y },
        0x6 => Instr::SetByte { x, kk },
        0x7 => Instr::AddByte { x, kk },
        0x8 => match op & 0xF {
            0x0 => Instr::Copy { x, y },
            0x1 => Instr::Or { x, y },
            0x2 => Instr::And { x, y },
            0x3 => Instr::Xor { x, y },
            0x4 => Instr::AddReg { x, y },
            0x5 => Instr::SubReg { x, y },
            0x6 => Instr::ShiftRight { x },
            0x7 => Instr::SubFrom { x, y },
            0xE => Instr::ShiftLeft { x },
            _ => Instr::Unknown,
        },
        0x9 => Instr::SkipNeReg { x, y },
        0xA => Instr::SetIndex { nnn },
        0xB => Instr::JumpPlus { nnn },
        0xC => Instr::Random { x, kk },
        0xD => Instr::Draw { x, y, n },
        0xE => match op & 0xFF {
            0x9E => Instr::SkipKey { x },
            0xA1 => Instr::SkipNoKey { x },
            _ => Instr::Unknown,
        },
        0xF => match op & 0xFF {
            0x07 => Instr::ReadDelay { x },
            0x0A => Instr::WaitKey { x },
            0x15 => Instr::SetDelay { x },
            0x18 => Instr::SetSound { x },
            0x1E => Instr::AddIndex { x },
            0x29 => Instr::FontAddr { x },
            0x33 => Instr::StoreDigits { x },
            0x55 => Instr::StoreRegs { x },
            0x65 => Instr::LoadRegs { x },
            _ => Instr::Unknown,
        },
        _ => Instr::Unknown,
    }
}

} // verus!
