//! Decoding of 16-bit instruction words into a tagged operation.
//!
//! An instruction word is split into nibble fields: `op` (bits 12-15),
//! `x` (bits 8-11), `y` (bits 4-7) and `n` (bits 0-3), together with the
//! derived immediates `nnn` (low 12 bits) and `nn` (low 8 bits). The
//! dispatch on these fields yields one variant of [`Instr`]; words that
//! match no pattern decode to [`Instr::Unknown`] and execute as no-ops.

use vstd::prelude::*;

verus! {

/// One decoded instruction, carrying its operand fields.
///
/// Register selectors (`x`, `y`) are nibbles, always below 16; `n` is a
/// nibble; `nnn` is a 12-bit address or immediate; `nn` a byte immediate.
#[derive(Clone, Copy, Debug, PartialEq, Eq, Structural)]
pub enum Instr {
    /// 00E0: zero the entire framebuffer.
    ClearScreen,
    /// 00EE: pop the stack top into the program counter.
    Return,
    /// 0nnn: legacy machine-code call; a no-op.
    Sys(u16),
    /// 1nnn: set the program counter to `nnn`.
    Jump(u16),
    /// 2nnn: push the program counter, then jump to `nnn`.
    Call(u16),
    /// 3xnn: skip the next instruction if register `x` equals `nn`.
    SkipEqImm(u8, u8),
    /// 4xnn: skip the next instruction if register `x` differs from `nn`.
    SkipNeImm(u8, u8),
    /// 5xy0: skip the next instruction if registers `x` and `y` are equal.
    SkipEqReg(u8, u8),
    /// 6xnn: set register `x` to `nn`.
    SetImm(u8, u8),
    /// 7xnn: add `nn` to register `x`, wrapping, without touching the flag.
    AddImm(u8, u8),
    /// 8xy0: copy register `y` into register `x`.
    SetReg(u8, u8),
    /// 8xy1: bitwise OR of registers `x` and `y` into `x`.
    Or(u8, u8),
    /// 8xy2: bitwise AND of registers `x` and `y` into `x`.
    And(u8, u8),
    /// 8xy3: bitwise XOR of registers `x` and `y` into `x`.
    Xor(u8, u8),
    /// 8xy4: add registers, flag register set to 1 exactly on carry.
    AddReg(u8, u8),
    /// 8xy5: subtract `y` from `x`, flag set to 1 exactly when no borrow.
    Sub(u8, u8),
    /// 8xy6: shift register `x` right by one, flag takes the old low bit.
    ShiftRight(u8),
    /// 8xy7: subtract `x` from `y` into `x`, flag 1 exactly when no borrow.
    SubReverse(u8, u8),
    /// 8xyE: shift register `x` left by one, flag takes the old high bit.
    ShiftLeft(u8),
    /// 9xy0: skip the next instruction if registers `x` and `y` differ.
    SkipNeReg(u8, u8),
    /// Annn: set the index register to `nnn`.
    SetIndex(u16),
    /// Bnnn: jump to `nnn` plus register 0.
    JumpPlus(u16),
    /// Cxnn: set register `x` to a random byte ANDed with `nn`.
    Random(u8, u8),
    /// Dxyn: draw an `n`-row sprite from memory at the index register.
    Draw(u8, u8, u8),
    /// Ex9E: skip if the key selected by register `x` is pressed.
    SkipKeyPressed(u8),
    /// ExA1: skip if the key selected by register `x` is not pressed.
    SkipKeyNotPressed(u8),
    /// Fx07: copy the delay timer into register `x`.
    ReadDelay(u8),
    /// Fx0A: block until a key is pressed, storing it in register `x`.
    WaitKey(u8),
    /// Fx15: set the delay timer from register `x`.
    SetDelay(u8),
    /// Fx18: set the sound timer from register `x`.
    SetSound(u8),
    /// Fx1E: add register `x` to the index register, wrapping at 16 bits.
    AddIndex(u8),
    /// Fx29: point the index register at the font sprite for register `x`.
    SetFontIndex(u8),
    /// Fx33: store the decimal digits of register `x` at the index register.
    StoreBcd(u8),
    /// Fx55: store registers 0 through `x` into memory at the index register.
    StoreRegs(u8),
    /// Fx65: load registers 0 through `x` from memory at the index register.
    LoadRegs(u8),
    /// Any word that matches no pattern; executes as a no-op.
    Unknown(u16),
}

/// The meaning of a 16-bit instruction word, as a decoded operation.
pub open spec fn spec_decode(word: u16) -> Instr {
    let op = word / 0x1000;
    let x = ((word / 0x100) % 0x10) as u8;
    let y = ((word / 0x10) % 0x10) as u8;
    let n = word % 0x10;
    let nnn = word % 0x1000;
    let nn = (word % 0x100) as u8;
    if word == 0x00E0 {
        Instr::ClearScreen
    } else if word == 0x00EE {
        Instr::Return
    } else if op == 0x0 {
        Instr::Sys(nnn)
    } else if op == 0x1 {
        Instr::Jump(nnn)
    } else if op == 0x2 {
        Instr::Call(nnn)
    } else if op == 0x3 {
        Instr::SkipEqImm(x, nn)
    } else if op == 0x4 {
        Instr::SkipNeImm(x, nn)
    } else if op == 0x5 && n == 0x0 {
        Instr::SkipEqReg(x, y)
    } else if op == 0x6 {
        Instr::SetImm(x, nn)
    } else if op == 0x7 {
        Instr::AddImm(x, nn)
    } else if op == 0x8 && n == 0x0 {
        Instr::SetReg(x, y)
    } else if op == 0x8 && n == 0x1 {
        Instr::Or(x, y)
    } else if op == 0x8 && n == 0x2 {
        Instr::And(x, y)
    } else if op == 0x8 && n == 0x3 {
        Instr::Xor(x, y)
    } else if op == 0x8 && n == 0x4 {
        Instr::AddReg(x, y)
    } else if op == 0x8 && n == 0x5 {
        Instr::Sub(x, y)
    } else if op == 0x8 && n == 0x6 {
        Instr::ShiftRight(x)
    } else if op == 0x8 && n == 0x7 {
        Instr::SubReverse(x, y)
    } else if op == 0x8 && n == 0xE {
        Instr::ShiftLeft(x)
    } else if op == 0x9 && n == 0x0 {
        Instr::SkipNeReg(x, y)
    } else if op == 0xA {
        Instr::SetIndex(nnn)
    } else if op == 0xB {
        Instr::JumpPlus(nnn)
    } else if op == 0xC {
        Instr::Random(x, nn)
    } else if op == 0xD {
        Instr::Draw(x, y, n as u8)
    } else if op == 0xE && y == 0x9 && n == 0xE {
        Instr::SkipKeyPressed(x)
    } else if op == 0xE && y == 0xA && n == 0x1 {
        Instr::SkipKeyNotPressed(x)
    } else if op == 0xF && y == 0x0 && n == 0x7 {
        Instr::ReadDelay(x)
    } else if op == 0xF && y == 0x0 && n == 0xA {
        Instr::WaitKey(x)
    } else if op == 0xF && y == 0x1 && n == 0x5 {
        Instr::SetDelay(x)
    } else if op == 0xF && y == 0x1 && n == 0x8 {
        Instr::SetSound(x)
    } else if op == 0xF && y == 0x1 && n == 0xE {
        Instr::AddIndex(x)
    } else if op == 0xF && y == 0x2 && n == 0x9 {
        Instr::SetFontIndex(x)
    } else if op == 0xF && y == 0x3 && n == 0x3 {
        Instr::StoreBcd(x)
    } else if op == 0xF && y == 0x5 && n == 0x5 {
        Instr::StoreRegs(x)
    } else if op == 0xF && y == 0x6 && n == 0x5 {
        Instr::LoadRegs(x)
    } else {
        Instr::Unknown(word)
    }
}

/// Operand fields of a decoded instruction lie in their nibble or 12-bit
/// ranges. Every result of [`spec_decode`] satisfies this.
pub open spec fn instr_wf(instr: Instr) -> bool {
    match instr {
        Instr::ClearScreen => true,
        Instr::Return => true,
        Instr::Sys(nnn) => nnn < 0x1000,
        Instr::Jump(nnn) => nnn < 0x1000,
        Instr::Call(nnn) => nnn < 0x1000,
        Instr::SkipEqImm(x, _) => x < 16,
        Instr::SkipNeImm(x, _) => x < 16,
        Instr::SkipEqReg(x, y) => x < 16 && y < 16,
        Instr::SetImm(x, _) => x < 16,
        Instr::AddImm(x, _) => x < 16,
        Instr::SetReg(x, y) => x < 16 && y < 16,
        Instr::Or(x, y) => x < 16 && y < 16,
        Instr::And(x, y) => x < 16 && y < 16,
        Instr::Xor(x, y) => x < 16 && y < 16,
        Instr::AddReg(x, y) => x < 16 && y < 16,
        Instr::Sub(x, y) => x < 16 && y < 16,
        Instr::ShiftRight(x) => x < 16,
        Instr::SubReverse(x, y) => x < 16 && y < 16,
        Instr::ShiftLeft(x) => x < 16,
        Instr::SkipNeReg(x, y) => x < 16 && y < 16,
        Instr::SetIndex(nnn) => nnn < 0x1000,
        Instr::JumpPlus(nnn) => nnn < 0x1000,
        Instr::Random(x, _) => x < 16,
        Instr::Draw(x, y, n) => x < 16 && y < 16 && n < 16,
        Instr::SkipKeyPressed(x) => x < 16,
        Instr::SkipKeyNotPressed(x) => x < 16,
        Instr::ReadDelay(x) => x < 16,
        Instr::WaitKey(x) => x < 16,
        Instr::SetDelay(x) => x < 16,
        Instr::SetSound(x) => x < 16,
        Instr::AddIndex(x) => x < 16,
        Instr::SetFontIndex(x) => x < 16,
        Instr::StoreBcd(x) => x < 16,
        Instr::StoreRegs(x) => x < 16,
        Instr::LoadRegs(x) => x < 16,
        Instr::Unknown(_) => true,
    }
}

/// Decode one instruction word into its operation.
pub fn decode(word: u16) -> (r: Instr)
    ensures
        r == spec_decode(word),
        instr_wf(r),
{
    let op = word / 0x1000;
    let x = ((word / 0x100) % 0x10) as u8;
    let y = ((word / 0x10) % 0x10) as u8;
    let n = word % 0x10;
    let nnn = word % 0x1000;
    let nn = (word % 0x100) as u8;
    if word == 0x00E0 {
        Instr::ClearScreen
    } else if word == 0x00EE {
        Instr::Return
    } else if op == 0x0 {
        Instr::Sys(nnn)
    } else if op == 0x1 {
        Instr::Jump(nnn)
    } else if op == 0x2 {
        Instr::Call(nnn)
    } else if op == 0x3 {
        Instr::SkipEqImm(x, nn)
    } else if op == 0x4 {
        Instr::SkipNeImm(x, nn)
    } else if op == 0x5 && n == 0x0 {
        Instr::SkipEqReg(x, y)
    } else if op == 0x6 {
        Instr::SetImm(x, nn)
    } else if op == 0x7 {
        Instr::AddImm(x, nn)
    } else if op == 0x8 && n == 0x0 {
        Instr::SetReg(x, y)
    } else if op == 0x8 && n == 0x1 {
        Instr::Or(x, y)
    } else if op == 0x8 && n == 0x2 {
        Instr::And(x, y)
    } else if op == 0x8 && n == 0x3 {
        Instr::Xor(x, y)
    } else if op == 0x8 && n == 0x4 {
        Instr::AddReg(x, y)
    } else if op == 0x8 && n == 0x5 {
        Instr::Sub(x, y)
    } else if op == 0x8 && n == 0x6 {
        Instr::ShiftRight(x)
    } else if op == 0x8 && n == 0x7 {
        Instr::SubReverse(x, y)
    } else if op == 0x8 && n == 0xE {
        Instr::ShiftLeft(x)
    } else if op == 0x9 && n == 0x0 {
        Instr::SkipNeReg(x, y)
    } else if op == 0xA {
        Instr::SetIndex(nnn)
    } else if op == 0xB {
        Instr::JumpPlus(nnn)
    } else if op == 0xC {
        Instr::Random(x, nn)
    } else if op == 0xD {
        Instr::Draw(x, y, n as u8)
    } else if op == 0xE && y == 0x9 && n == 0xE {
        Instr::SkipKeyPressed(x)
    } else if op == 0xE && y == 0xA && n == 0x1 {
        Instr::SkipKeyNotPressed(x)
    } else if op == 0xF && y == 0x0 && n == 0x7 {
        Instr::ReadDelay(x)
    } else if op == 0xF && y == 0x0 && n == 0xA {
        Instr::WaitKey(x)
    } else if op == 0xF && y == 0x1 && n == 0x5 {
        Instr::SetDelay(x)
    } else if op == 0xF && y == 0x1 && n == 0x8 {
        Instr::SetSound(x)
    } else if op == 0xF && y == 0x1 && n == 0xE {
        Instr::AddIndex(x)
    } else if op == 0xF && y == 0x2 && n == 0x9 {
        Instr::SetFontIndex(x)
    } else if op == 0xF && y == 0x3 && n == 0x3 {
        Instr::StoreBcd(x)
    } else if op == 0xF && y == 0x5 && n == 0x5 {
        Instr::StoreRegs(x)
    } else if op == 0xF && y == 0x6 && n == 0x5 {
        Instr::LoadRegs(x)
    } else {
        Instr::Unknown(word)
    }
}

} // verus!
