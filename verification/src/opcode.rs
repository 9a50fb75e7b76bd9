//! Instruction decoding.
//!
//! A 16-bit instruction word is split into four 4-bit fields and mapped to a
//! tagged variant carrying its operands: `x` and `y` name general registers
//! (always below 16), `nn` is an 8-bit immediate, `nnn` a 12-bit address, and
//! `n` a 4-bit sprite height. A word that matches no known instruction
//! becomes [`Opcode::Unknown`] and executes as a no-op.

use vstd::prelude::*;

verus! {

/// One decoded instruction.
#[derive(Clone, Copy, Debug, PartialEq, Eq, Structural)]
pub enum Opcode {
    /// 00E0: clear the framebuffer and raise the redraw signal.
    ClearScreen,
    /// 00EE: return from a subroutine.
    Ret,
    /// 1NNN: jump to address `nnn`.
    Jump { nnn: u16 },
    /// 2NNN: call the subroutine at `nnn`.
    Call { nnn: u16 },
    /// 3XNN: skip the next instruction if register `x` equals `nn`.
    SkipEqImm { x: u8, nn: u8 },
    /// 4XNN: skip the next instruction if register `x` differs from `nn`.
    SkipNeImm { x: u8, nn: u8 },
    /// 5XY0: skip the next instruction if registers `x` and `y` are equal.
    SkipEqReg { x: u8, y: u8 },
    /// 6XNN: set register `x` to `nn`.
    SetImm { x: u8, nn: u8 },
    /// 7XNN: add `nn` to register `x`, wrapping, with no flag output.
    AddImm { x: u8, nn: u8 },
    /// 8XY0: copy register `y` into register `x`.
    Copy { x: u8, y: u8 },
    /// 8XY1: bitwise OR of registers `x` and `y` into `x`.
    Or { x: u8, y: u8 },
    /// 8XY2: bitwise AND of registers `x` and `y` into `x`.
    And { x: u8, y: u8 },
    /// 8XY3: bitwise XOR of registers `x` and `y` into `x`.
    Xor { x: u8, y: u8 },
    /// 8XY4: add register `y` to `x`; register 0xF reports the carry.
    AddReg { x: u8, y: u8 },
    /// 8XY5: subtract register `y` from `x`; register 0xF is 1 when no
    /// borrow occurred.
    SubReg { x: u8, y: u8 },
    /// 8XY6: shift right by one; register 0xF receives the shifted-out bit.
    ShiftRight { x: u8, y: u8 },
    /// 8XY7: set register `x` to `y - x`; register 0xF is 1 when no borrow
    /// occurred.
    SubFrom { x: u8, y: u8 },
    /// 8XYE: shift left by one; register 0xF receives the shifted-out bit.
    ShiftLeft { x: u8, y: u8 },
    /// 9XY0: skip the next instruction if registers `x` and `y` differ.
    SkipNeReg { x: u8, y: u8 },
    /// ANNN: set the index register to `nnn`.
    SetIndex { nnn: u16 },
    /// BNNN: jump to `nnn` plus an offset register.
    JumpOffset { x: u8, nnn: u16 },
    /// CXNN: AND a random byte with `nn` into register `x`.
    Random { x: u8, nn: u8 },
    /// DXYN: XOR an `n`-row sprite onto the framebuffer at the coordinates
    /// held in registers `x` and `y`; register 0xF reports collisions.
    Draw { x: u8, y: u8, n: u8 },
    /// EX9E: skip the next instruction if the key named by register `x` is
    /// pressed.
    SkipKey { x: u8 },
    /// EXA1: skip the next instruction if the key named by register `x` is
    /// not pressed.
    SkipNoKey { x: u8 },
    /// FX07: read the delay timer into register `x`.
    ReadDelay { x: u8 },
    /// FX0A: stall at this instruction until some key is pressed.
    WaitKey { x: u8 },
    /// FX15: set the delay timer from register `x`.
    SetDelay { x: u8 },
    /// FX18: set the sound timer from register `x`.
    SetSound { x: u8 },
    /// FX1E: add register `x` to the index register, wrapping at 16 bits.
    AddIndex { x: u8 },
    /// FX29: point the index register at the font glyph for the low nibble
    /// of register `x`.
    FontChar { x: u8 },
    /// FX33: write the decimal digits of register `x` to memory at the index
    /// register.
    Bcd { x: u8 },
    /// FX55: store registers 0 through `x` to memory at the index register.
    StoreRegs { x: u8 },
    /// FX65: load registers 0 through `x` from memory at the index register.
    LoadRegs { x: u8 },
    /// Any word that matches no instruction; executed as a no-op.
    Unknown { word: u16 },
}

/// Every operand field of a decoded instruction is in range: register names
/// and sprite heights below 16, addresses below 4096.
pub open spec fn opcode_wf(op: Opcode) -> bool {
    match op {
        Opcode::ClearScreen => true,
        Opcode::Ret => true,
        Opcode::Jump { nnn } => nnn < 4096,
        Opcode::Call { nnn } => nnn < 4096,
        Opcode::SkipEqImm { x, nn } => x < 16,
        Opcode::SkipNeImm { x, nn } => x < 16,
        Opcode::SkipEqReg { x, y } => x < 16 && y < 16,
        Opcode::SetImm { x, nn } => x < 16,
        Opcode::AddImm { x, nn } => x < 16,
        Opcode::Copy { x, y } => x < 16 && y < 16,
        Opcode::Or { x, y } => x < 16 && y < 16,
        Opcode::And { x, y } => x < 16 && y < 16,
        Opcode::Xor { x, y } => x < 16 && y < 16,
        Opcode::AddReg { x, y } => x < 16 && y < 16,
        Opcode::SubReg { x, y } => x < 16 && y < 16,
        Opcode::ShiftRight { x, y } => x < 16 && y < 16,
        Opcode::SubFrom { x, y } => x < 16 && y < 16,
        Opcode::ShiftLeft { x, y } => x < 16 && y < 16,
        Opcode::SkipNeReg { x, y } => x < 16 && y < 16,
        Opcode::SetIndex { nnn } => nnn < 4096,
        Opcode::JumpOffset { x, nnn } => x < 16 && nnn < 4096,
        Opcode::Random { x, nn } => x < 16,
        Opcode::Draw { x, y, n } => x < 16 && y < 16 && n < 16,
        Opcode::SkipKey { x } => x < 16,
        Opcode::SkipNoKey { x } => x < 16,
        Opcode::ReadDelay { x } => x < 16,
        Opcode::WaitKey { x } => x < 16,
        Opcode::SetDelay { x } => x < 16,
        Opcode::SetSound { x } => x < 16,
        Opcode::AddIndex { x } => x < 16,
        Opcode::FontChar { x } => x < 16,
        Opcode::Bcd { x } => x < 16,
        Opcode::StoreRegs { x } => x < 16,
        Opcode::LoadRegs { x } => x < 16,
        Opcode::Unknown { word } => true,
    }
}

/// What a 16-bit word decodes to: the four 4-bit fields `a` (the family),
/// `x`, `y` and `d` select the variant; `nn` and `nnn` are the low 8 and 12
/// bits.
pub open spec fn decode_spec(w: u16) -> Opcode {
    let a = w / 4096;
    let x = ((w / 256) % 16) as u8;
    let y = ((w / 16) % 16) as u8;
    let d = w % 16;
    let nn = (w % 256) as u8;
    let nnn = w % 4096;
    if w == 0x00E0 {
        Opcode::ClearScreen
    } else if w == 0x00EE {
        Opcode::Ret
    } else if a == 1 {
        Opcode::Jump { nnn }
    } else if a == 2 {
        Opcode::Call { nnn }
    } else if a == 3 {
        Opcode::SkipEqImm { x, nn }
    } else if a == 4 {
        Opcode::SkipNeImm { x, nn }
    } else if a == 5 && d == 0 {
        Opcode::SkipEqReg { x, y }
    } else if a == 6 {
        Opcode::SetImm { x, nn }
    } else if a == 7 {
        Opcode::AddImm { x, nn }
    } else if a == 8 && d == 0 {
        Opcode::Copy { x, y }
    } else if a == 8 && d == 1 {
        Opcode::Or { x, y }
    } else if a == 8 && d == 2 {
        Opcode::And { x, y }
    } else if a == 8 && d == 3 {
        Opcode::Xor { x, y }
    } else if a == 8 && d == 4 {
        Opcode::AddReg { x, y }
    } else if a == 8 && d == 5 {
        Opcode::SubReg { x, y }
    } else if a == 8 && d == 6 {
        Opcode::ShiftRight { x, y }
    } else if a == 8 && d == 7 {
        Opcode::SubFrom { x, y }
    } else if a == 8 && d == 0xE {
        Opcode::ShiftLeft { x, y }
    } else if a == 9 && d == 0 {
        Opcode::SkipNeReg { x, y }
    } else if a == 0xA {
        Opcode::SetIndex { nnn }
    } else if a == 0xB {
        Opcode::JumpOffset { x, nnn }
    } else if a == 0xC {
        Opcode::Random { x, nn }
    } else if a == 0xD {
        Opcode::Draw { x, y, n: d as u8 }
    } else if a == 0xE && nn == 0x9E {
        Opcode::SkipKey { x }
    } else if a == 0xE && nn == 0xA1 {
        Opcode::SkipNoKey { x }
    } else if a == 0xF && nn == 0x07 {
        Opcode::ReadDelay { x }
    } else if a == 0xF && nn == 0x0A {
        Opcode::WaitKey { x }
    } else if a == 0xF && nn == 0x15 {
        Opcode::SetDelay { x }
    } else if a == 0xF && nn == 0x18 {
        Opcode::SetSound { x }
    } else if a == 0xF && nn == 0x1E {
        Opcode::AddIndex { x }
    } else if a == 0xF && nn == 0x29 {
        Opcode::FontChar { x }
    } else if a == 0xF && nn == 0x33 {
        Opcode::Bcd { x }
    } else if a == 0xF && nn == 0x55 {
        Opcode::StoreRegs { x }
    } else if a == 0xF && nn == 0x65 {
        Opcode::LoadRegs { x }
    } else {
        Opcode::Unknown { word: w }
    }
}

/// Splits an instruction word into its decoded form.
pub fn decode(w: u16) -> (op: Opcode)
    ensures
        op == decode_spec(w),
        opcode_wf(op),
{
    let a = w / 4096;
    let x = ((w / 256) % 16) as u8;
    let y = ((w / 16) % 16) as u8;
    let d = w % 16;
    let nn = (w % 256) as u8;
    let nnn = w % 4096;
    if w == 0x00E0 {
        Opcode::ClearScreen
    } else if w == 0x00EE {
        Opcode::Ret
    } else if a == 1 {
        Opcode::Jump { nnn }
    } else if a == 2 {
        Opcode::Call { nnn }
    } else if a == 3 {
        Opcode::SkipEqImm { x, nn }
    } else if a == 4 {
        Opcode::SkipNeImm { x, nn }
    } else if a == 5 && d == 0 {
        Opcode::SkipEqReg { x, y }
    } else if a == 6 {
        Opcode::SetImm { x, nn }
    } else if a == 7 {
        Opcode::AddImm { x, nn }
    } else if a == 8 && d == 0 {
        Opcode::Copy { x, y }
    } else if a == 8 && d == 1 {
        Opcode::Or { x, y }
    } else if a == 8 && d == 2 {
        Opcode::And { x, y }
    } else if a == 8 && d == 3 {
        Opcode::Xor { x, y }
    } else if a == 8 && d == 4 {
        Opcode::AddReg { x, y }
    } else if a == 8 && d == 5 {
        Opcode::SubReg { x, y }
    } else if a == 8 && d == 6 {
        Opcode::ShiftRight { x, y }
    } else if a == 8 && d == 7 {
        Opcode::SubFrom { x, y }
    } else if a == 8 && d == 0xE {
        Opcode::ShiftLeft { x, y }
    } else if a == 9 && d == 0 {
        Opcode::SkipNeReg { x, y }
    } else if a == 0xA {
        Opcode::SetIndex { nnn }
    } else if a == 0xB {
        Opcode::JumpOffset { x, nnn }
    } else if a == 0xC {
        Opcode::Random { x, nn }
    } else if a == 0xD {
        Opcode::Draw { x, y, n: d as u8 }
    } else if a == 0xE && nn == 0x9E {
        Opcode::SkipKey { x }
    } else if a == 0xE && nn == 0xA1 {
        Opcode::SkipNoKey { x }
    } else if a == 0xF && nn == 0x07 {
        Opcode::ReadDelay { x }
    } else if a == 0xF && nn == 0x0A {
        Opcode::WaitKey { x }
    } else if a == 0xF && nn == 0x15 {
        Opcode::SetDelay { x }
    } else if a == 0xF && nn == 0x18 {
        Opcode::SetSound { x }
    } else if a == 0xF && nn == 0x1E {
        Opcode::AddIndex { x }
    } else if a == 0xF && nn == 0x29 {
        Opcode::FontChar { x }
    } else if a == 0xF && nn == 0x33 {
        Opcode::Bcd { x }
    } else if a == 0xF && nn == 0x55 {
        Opcode::StoreRegs { x }
    } else if a == 0xF && nn == 0x65 {
        Opcode::LoadRegs { x }
    } else {
        Opcode::Unknown { word: w }
    }
}

} // verus!
