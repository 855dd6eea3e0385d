//! Instruction decoding: a 16-bit big-endian instruction word is split by
//! convention into a family (high nibble) and its operand fields, and
//! mapped to one variant per operation of the 35-instruction set.
use vstd::prelude::*;

verus! {

/// The register-register operations of the `8xy_` family.
#[derive(Clone, Copy, Debug, PartialEq, Eq, Structural)]
pub enum AluOp {
    /// `8xy0`: Vx <- Vy.
    Mov,
    /// `8xy1`: Vx <- Vx | Vy.
    Or,
    /// `8xy2`: Vx <- Vx & Vy.
    And,
    /// `8xy3`: Vx <- Vx ^ Vy.
    Xor,
    /// `8xy4`: Vx <- Vx + Vy, VF <- carry.
    Add,
    /// `8xy5`: Vx <- Vx - Vy, VF <- 1 exactly when no borrow occurred.
    Sub,
    /// `8xy6`: Vx <- Vx >> 1, VF <- the bit shifted out.
    Shr,
    /// `8xy7`: Vx <- Vy - Vx, VF <- 1 exactly when no borrow occurred.
    SubN,
    /// `8xyE`: Vx <- Vx << 1, VF <- the bit shifted out.
    Shl,
}

/// One decoded instruction. Field names follow the conventional operand
/// placeholders: `nnn` a 12-bit address, `kk` an 8-bit immediate, `x` and
/// `y` register numbers, `n` a 4-bit count.
#[derive(Clone, Copy, Debug, PartialEq, Eq, Structural)]
pub enum Instr {
    /// `00E0`: clear the display.
    ClearScreen,
    /// `00EE`: return from a subroutine.
    Return,
    /// `0nnn`: legacy machine-code call; skipped without effect.
    SysIgnored,
    /// `1nnn`: jump.
    Jump { nnn: u16 },
    /// `2nnn`: call a subroutine.
    Call { nnn: u16 },
    /// `3xkk`: skip the next instruction if Vx == kk.
    SkipEqImm { x: u8, kk: u8 },
    /// `4xkk`: skip the next instruction if Vx != kk.
    SkipNeImm { x: u8, kk: u8 },
    /// `5xy0`: skip the next instruction if Vx == Vy.
    SkipEqReg { x: u8, y: u8 },
    /// `6xkk`: Vx <- kk.
    LoadImm { x: u8, kk: u8 },
    /// `7xkk`: Vx <- Vx + kk with 8-bit wraparound; VF untouched.
    AddImm { x: u8, kk: u8 },
    /// `8xy0` through `8xyE`: register-register operation.
    Alu { x: u8, y: u8, op: AluOp },
    /// `9xy0`: skip the next instruction if Vx != Vy.
    SkipNeReg { x: u8, y: u8 },
    /// `Annn`: I <- nnn.
    LoadIndex { nnn: u16 },
    /// `Bnnn`: jump to nnn + V0.
    JumpPlusV0 { nnn: u16 },
    /// `Cxkk`: Vx <- random byte & kk.
    Random { x: u8, kk: u8 },
    /// `Dxyn`: draw an n-row sprite from memory at I at (Vx, Vy).
    Draw { x: u8, y: u8, n: u8 },
    /// `Ex9E`: skip the next instruction if key Vx is pressed.
    SkipKeyPressed { x: u8 },
    /// `ExA1`: skip the next instruction if key Vx is not pressed.
    SkipKeyNotPressed { x: u8 },
    /// `Fx07`: Vx <- delay timer.
    ReadDelay { x: u8 },
    /// `Fx0A`: suspend until a key is pressed; its index goes to Vx.
    WaitKey { x: u8 },
    /// `Fx15`: delay timer <- Vx.
    SetDelay { x: u8 },
    /// `Fx18`: sound timer <- Vx.
    SetSound { x: u8 },
    /// `Fx1E`: I <- I + Vx with 16-bit wraparound.
    AddIndex { x: u8 },
    /// `Fx29`: I <- the font address of glyph Vx.
    LoadGlyph { x: u8 },
    /// `Fx33`: store the decimal digits of Vx at I, I+1, I+2.
    StoreBcd { x: u8 },
    /// `Fx55`: store V0 through Vx to memory at I.
    StoreRegs { x: u8 },
    /// `Fx65`: load V0 through Vx from memory at I.
    LoadRegs { x: u8 },
    /// Any bit pattern outside the instruction set; a reported no-op.
    Unknown,
}

/// The low 12 bits: an address operand.
pub open spec fn op_nnn(op: u16) -> u16 {
    op & 0x0FFF
}

/// Bits 8..11: the first register operand.
pub open spec fn op_x(op: u16) -> u8 {
    ((op >> 8) & 0xF) as u8
}

/// Bits 4..7: the second register operand.
pub open spec fn op_y(op: u16) -> u8 {
    ((op >> 4) & 0xF) as u8
}

/// The low 4 bits: a small count operand.
pub open spec fn op_n(op: u16) -> u8 {
    (op & 0xF) as u8
}

/// The low 8 bits: an immediate operand.
pub open spec fn op_kk(op: u16) -> u8 {
    (op & 0xFF) as u8
}

/// The meaning of an instruction word as a decoded instruction.
pub open spec fn decode_spec(op: u16) -> Instr {
    if op == 0x00E0 {
        Instr::ClearScreen
    } else if op == 0x00EE {
        Instr::Return
    } else {
        match op >> 12 {
            0x0 => Instr::SysIgnored,
            0x1 => Instr::Jump { nnn: op_nnn(op) },
            0x2 => Instr::Call { nnn: op_nnn(op) },
            0x3 => Instr::SkipEqImm { x: op_x(op), kk: op_kk(op) },
            0x4 => Instr::SkipNeImm { x: op_x(op), kk: op_kk(op) },
            0x5 => if op & 0xF == 0 {
                Instr::SkipEqReg { x: op_x(op), y: op_y(op) }
            } else {
                Instr::Unknown
            },
            0x6 => Instr::LoadImm { x: op_x(op), kk: op_kk(op) },
            0x7 => Instr::AddImm { x: op_x(op), kk: op_kk(op) },
            0x8 => match op & 0xF {
                0x0 => Instr::Alu { x: op_x(op), y: op_y(op), op: AluOp::Mov },
                0x1 => Instr::Alu { x: op_x(op), y: op_y(op), op: AluOp::Or },
                0x2 => Instr::Alu { x: op_x(op), y: op_y(op), op: AluOp::And },
                0x3 => Instr::Alu { x: op_x(op), y: op_y(op), op: AluOp::Xor },
                0x4 => Instr::Alu { x: op_x(op), y: op_y(op), op: AluOp::Add },
                0x5 => Instr::Alu { x: op_x(op), y: op_y(op), op: AluOp::Sub },
                0x6 => Instr::Alu { x: op_x(op), y: op_y(op), op: AluOp::Shr },
                0x7 => Instr::Alu { x: op_x(op), y: op_y(op), op: AluOp::SubN },
                0xE => Instr::Alu { x: op_x(op), y: op_y(op), op: AluOp::Shl },
                _ => Instr::Unknown,
            },
            0x9 => if op & 0xF == 0 {
                Instr::SkipNeReg { x: op_x(op), y: op_y(op) }
            } else {
                Instr::Unknown
            },
            0xA => Instr::LoadIndex { nnn: op_nnn(op) },
            0xB => Instr::JumpPlusV0 { nnn: op_nnn(op) },
            0xC => Instr::Random { x: op_x(op), kk: op_kk(op) },
            0xD => Instr::Draw { x: op_x(op), y: op_y(op), n: op_n(op) },
            0xE => match op & 0xFF {
                0x9E => Instr::SkipKeyPressed { x: op_x(op) },
                0xA1 => Instr::SkipKeyNotPressed { x: op_x(op) },
                _ => Instr::Unknown,
            },
            0xF => match op & 0xFF {
                0x07 => Instr::ReadDelay { x: op_x(op) },
                0x0A => Instr::WaitKey { x: op_x(op) },
                0x15 => Instr::SetDelay { x: op_x(op) },
                0x18 => Instr::SetSound { x: op_x(op) },
                0x1E => Instr::AddIndex { x: op_x(op) },
                0x29 => Instr::LoadGlyph { x: op_x(op) },
                0x33 => Instr::StoreBcd { x: op_x(op) },
                0x55 => Instr::StoreRegs { x: op_x(op) },
                0x65 => Instr::LoadRegs { x: op_x(op) },
                _ => Instr::Unknown,
            },
            _ => Instr::Unknown,
        }
    }
}

/// Every operand field of a decoded instruction lies within its width:
/// register numbers and counts below 16, addresses below 4096.
pub open spec fn instr_fields_bounded(i: Instr) -> bool {
    match i {
        Instr::Jump { nnn } => nnn < 4096,
        Instr::Call { nnn } => nnn < 4096,
        Instr::SkipEqImm { x, kk } => x < 16,
        Instr::SkipNeImm { x, kk } => x < 16,
        Instr::SkipEqReg { x, y } => x < 16 && y < 16,
        Instr::LoadImm { x, kk } => x < 16,
        Instr::AddImm { x, kk } => x < 16,
        Instr::Alu { x, y, op } => x < 16 && y < 16,
        Instr::SkipNeReg { x, y } => x < 16 && y < 16,
        Instr::LoadIndex { nnn } => nnn < 4096,
        Instr::JumpPlusV0 { nnn } => nnn < 4096,
        Instr::Random { x, kk } => x < 16,
        Instr::Draw { x, y, n } => x < 16 && y < 16 && n < 16,
        Instr::SkipKeyPressed { x } => x < 16,
        Instr::SkipKeyNotPressed { x } => x < 16,
        Instr::ReadDelay { x } => x < 16,
        Instr::WaitKey { x } => x < 16,
        Instr::SetDelay { x } => x < 16,
        Instr::SetSound { x } => x < 16,
        Instr::AddIndex { x } => x < 16,
        Instr::LoadGlyph { x } => x < 16,
        Instr::StoreBcd { x } => x < 16,
        Instr::StoreRegs { x } => x < 16,
        Instr::LoadRegs { x } => x < 16,
        _ => true,
    }
}

/// The operand fields of any instruction word are bounded by their widths.
pub proof fn lemma_decode_bounded(op: u16)
    ensures
        instr_fields_bounded(decode_spec(op)),
{
    assert(op & 0x0FFF < 4096) by (bit_vector);
    assert((op >> 8) & 0xF < 16) by (bit_vector);
    assert((op >> 4) & 0xF < 16) by (bit_vector);
    assert(op & 0xF < 16) by (bit_vector);
}

/// Decode one instruction word.
pub fn decode(op: u16) -> (r: Instr)
    ensures
        r == decode_spec(op),
        instr_fields_bounded(r),
{
    proof {
        lemma_decode_bounded(op);
    }
    if op == 0x00E0 {
        Instr::ClearScreen
    } else if op == 0x00EE {
        Instr::Return
    } else {
        let x = ((op >> 8) & 0xF) as u8;
        let y = ((op >> 4) & 0xF) as u8;
        let n = (op & 0xF) as u8;
        let kk = (op & 0xFF) as u8;
        let nnn = op & 0x0FFF;
        match op >> 12 {
            0x0 => Instr::SysIgnored,
            0x1 => Instr::Jump { nnn },
            0x2 => Instr::Call { nnn },
            0x3 => Instr::SkipEqImm { x, kk },
            0x4 => Instr::SkipNeImm { x, kk },
            0x5 => if op & 0xF == 0 {
                Instr::SkipEqReg { x, y }
            } else {
                Instr::Unknown
            },
            0x6 => Instr::LoadImm { x, kk },
            0x7 => Instr::AddImm { x, kk },
            0x8 => match op & 0xF {
                0x0 => Instr::Alu { x, y, op: AluOp::Mov },
                0x1 => Instr::Alu { x, y, op: AluOp::Or },
                0x2 => Instr::Alu { x, y, op: AluOp::And },
                0x3 => Instr::Alu { x, y, op: AluOp::Xor },
                0x4 => Instr::Alu { x, y, op: AluOp::Add },
                0x5 => Instr::Alu { x, y, op: AluOp::Sub },
                0x6 => Instr::Alu { x, y, op: AluOp::Shr },
                0x7 => Instr::Alu { x, y, op: AluOp::SubN },
                0xE => Instr::Alu { x, y, op: AluOp::Shl },
                _ => Instr::Unknown,
            },
            0x9 => if op & 0xF == 0 {
                Instr::SkipNeReg { x, y }
            } else {
                Instr::Unknown
            },
            0xA => Instr::LoadIndex { nnn },
            0xB => Instr::JumpPlusV0 { nnn },
            0xC => Instr::Random { x, kk },
            0xD => Instr::Draw { x, y, n },
            0xE => match op & 0xFF {
                0x9E => Instr::SkipKeyPressed { x },
                0xA1 => Instr::SkipKeyNotPressed { x },
                _ => Instr::Unknown,
            },
            0xF => match op & 0xFF {
                0x07 => Instr::ReadDelay { x },
                0x0A => Instr::WaitKey { x },
                0x15 => Instr::SetDelay { x },
                0x18 => Instr::SetSound { x },
                0x1E => Instr::AddIndex { x },
                0x29 => Instr::LoadGlyph { x },
                0x33 => Instr::StoreBcd { x },
                0x55 => Instr::StoreRegs { x },
                0x65 => Instr::LoadRegs { x },
                _ => Instr::Unknown,
            },
            _ => Instr::Unknown,
        }
    }
}

} // verus!
