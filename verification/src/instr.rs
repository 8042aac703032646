//! Instruction words, their decoding into a tagged variant per instruction
//! form, and the faults a step can report.

use vstd::prelude::*;

verus! {

/// A fatal condition met while executing one step. The interpreter state is
/// left unchanged when one of these is reported.
#[derive(Clone, Copy, Debug, PartialEq, Eq, Structural)]
pub enum Fault {
    /// The program counter does not leave room for a 2-byte fetch.
    PcOutOfBounds,
    /// A subroutine call found the 16-slot stack full.
    StackOverflow,
    /// A return was executed with an empty stack.
    StackUnderflow,
    /// A memory access driven by the index register falls outside memory.
    MemoryOutOfBounds,
    /// A key-skip instruction named a pad slot outside 0x0..=0xF.
    KeyOutOfRange,
    /// The instruction word matches no known pattern; carries the raw word.
    UnknownOpcode(u16),
}

/// One decoded instruction. Register selectors and the draw height are
/// 4-bit fields; `u8` immediates are the low byte and `u16` immediates the
/// low 12 bits of the instruction word.
#[derive(Clone, Copy, Debug, PartialEq, Eq, Structural)]
pub enum Instr {
    /// 0000: no operation.
    Nop,
    /// 00E0: clear the display.
    Cls,
    /// 00EE: pop a return address and jump to it.
    Ret,
    /// 1NNN: unconditional jump.
    Jump(u16),
    /// 2NNN: push the program counter, then jump.
    Call(u16),
    /// 3XNN: skip the next instruction if VX == NN.
    SkipEqImm(u8, u8),
    /// 4XNN: skip the next instruction if VX != NN.
    SkipNeImm(u8, u8),
    /// 5XY0: skip the next instruction if VX == VY.
    SkipEqReg(u8, u8),
    /// 6XNN: VX := NN.
    SetImm(u8, u8),
    /// 7XNN: VX := VX + NN, wrapping, no flag written.
    AddImm(u8, u8),
    /// 8XY0: VX := VY.
    Mov(u8, u8),
    /// 8XY1: VX := VX | VY.
    Or(u8, u8),
    /// 8XY2: VX := VX & VY.
    And(u8, u8),
    /// 8XY3: VX := VX ^ VY.
    Xor(u8, u8),
    /// 8XY4: VX := VX + VY truncated; VF := 1 on 8-bit overflow else 0.
    AddReg(u8, u8),
    /// 8XY5: VX := VX - VY truncated; VF := 1 when no borrow (VX >= VY).
    SubReg(u8, u8),
    /// 8XY6: VF := low bit of VX, then VX := VX >> 1; VY is not consulted.
    Shr(u8),
    /// 8XY7: VX := VY - VX truncated; VF := 1 when no borrow (VY >= VX).
    SubFrom(u8, u8),
    /// 8XYE: VF := high bit of VX, then VX := VX << 1 truncated; VY is not
    /// consulted.
    Shl(u8),
    /// 9XY0: skip the next instruction if VX != VY.
    SkipNeReg(u8, u8),
    /// ANNN: I := NNN.
    SetIndex(u16),
    /// BNNN: jump to V0 + NNN.
    JumpV0(u16),
    /// CXNN: VX := random byte & NN.
    Rand(u8, u8),
    /// DXYN: XOR-draw the N-row sprite at memory[I..] anchored at (VX, VY);
    /// VF := 1 when a lit pixel was turned off.
    Draw(u8, u8, u8),
    /// EX9E: skip the next instruction if key[VX] is pressed.
    SkipKey(u8),
    /// EXA1: skip the next instruction if key[VX] is not pressed.
    SkipNoKey(u8),
    /// FX07: VX := delay timer.
    GetDelay(u8),
    /// FX0A: if a key is pressed, VX := its lowest index; otherwise rewind
    /// the program counter so the instruction re-executes next step.
    WaitKey(u8),
    /// FX15: delay timer := VX.
    SetDelay(u8),
    /// FX18: sound timer := VX.
    SetSound(u8),
    /// FX1E: I := I + VX, wrapping modulo the 16-bit range.
    AddIndex(u8),
    /// FX29: I := address of the built-in glyph for digit VX.
    Glyph(u8),
    /// FX33: store the decimal digits of VX at memory[I..I+3].
    Bcd(u8),
    /// FX55: copy V0..=VX into memory starting at I.
    StoreRegs(u8),
    /// FX65: copy memory starting at I into V0..=VX.
    LoadRegs(u8),
}

/// Most significant nibble of an instruction word.
pub open spec fn nib0(op: u16) -> u8 {
    (op / 0x1000) as u8
}

/// Second nibble: the X register selector.
pub open spec fn nib1(op: u16) -> u8 {
    ((op / 0x100) % 16) as u8
}

/// Third nibble: the Y register selector.
pub open spec fn nib2(op: u16) -> u8 {
    ((op / 16) % 16) as u8
}

/// Least significant nibble.
pub open spec fn nib3(op: u16) -> u8 {
    (op % 16) as u8
}

/// The low byte of an instruction word: the NN immediate.
pub open spec fn imm8(op: u16) -> u8 {
    (op % 0x100) as u8
}

/// The low 12 bits of an instruction word: the NNN address immediate.
pub open spec fn imm12(op: u16) -> u16 {
    op % 0x1000
}

/// Every register selector, height and immediate of a decoded instruction
/// lies within its bit-field's range.
pub open spec fn instr_wf(i: Instr) -> bool {
    match i {
        Instr::Nop => true,
        Instr::Cls => true,
        Instr::Ret => true,
        Instr::Jump(nnn) => nnn < 0x1000,
        Instr::Call(nnn) => nnn < 0x1000,
        Instr::SkipEqImm(x, _) => x < 16,
        Instr::SkipNeImm(x, _) => x < 16,
        Instr::SkipEqReg(x, y) => x < 16 && y < 16,
        Instr::SetImm(x, _) => x < 16,
        Instr::AddImm(x, _) => x < 16,
        Instr::Mov(x, y) => x < 16 && y < 16,
        Instr::Or(x, y) => x < 16 && y < 16,
        Instr::And(x, y) => x < 16 && y < 16,
        Instr::Xor(x, y) => x < 16 && y < 16,
        Instr::AddReg(x, y) => x < 16 && y < 16,
        Instr::SubReg(x, y) => x < 16 && y < 16,
        Instr::Shr(x) => x < 16,
        Instr::SubFrom(x, y) => x < 16 && y < 16,
        Instr::Shl(x) => x < 16,
        Instr::SkipNeReg(x, y) => x < 16 && y < 16,
        Instr::SetIndex(nnn) => nnn < 0x1000,
        Instr::JumpV0(nnn) => nnn < 0x1000,
        Instr::Rand(x, _) => x < 16,
        Instr::Draw(x, y, n) => x < 16 && y < 16 && n < 16,
        Instr::SkipKey(x) => x < 16,
        Instr::SkipNoKey(x) => x < 16,
        Instr::GetDelay(x) => x < 16,
        Instr::WaitKey(x) => x < 16,
        Instr::SetDelay(x) => x < 16,
        Instr::SetSound(x) => x < 16,
        Instr::AddIndex(x) => x < 16,
        Instr::Glyph(x) => x < 16,
        Instr::Bcd(x) => x < 16,
        Instr::StoreRegs(x) => x < 16,
        Instr::LoadRegs(x) => x < 16,
    }
}

/// Classification of an instruction word: the first nibble picks the opcode
/// family, and families 0, 5, 8, 9, E and F are disambiguated by the
/// remaining nibbles. A word matching no pattern decodes to `None`.
pub open spec fn decode_spec(op: u16) -> Option<Instr> {
    let n0 = nib0(op);
    let n1 = nib1(op);
    let n2 = nib2(op);
    let n3 = nib3(op);
    let nn = imm8(op);
    let nnn = imm12(op);
    match (n0, n1, n2, n3) {
        (0, 0, 0, 0) => Some(Instr::Nop),
        (0, 0, 0xE, 0) => Some(Instr::Cls),
        (0, 0, 0xE, 0xE) => Some(Instr::Ret),
        (1, _, _, _) => Some(Instr::Jump(nnn)),
        (2, _, _, _) => Some(Instr::Call(nnn)),
        (3, _, _, _) => Some(Instr::SkipEqImm(n1, nn)),
        (4, _, _, _) => Some(Instr::SkipNeImm(n1, nn)),
        (5, _, _, 0) => Some(Instr::SkipEqReg(n1, n2)),
        (6, _, _, _) => Some(Instr::SetImm(n1, nn)),
        (7, _, _, _) => Some(Instr::AddImm(n1, nn)),
        (8, _, _, 0) => Some(Instr::Mov(n1, n2)),
        (8, _, _, 1) => Some(Instr::Or(n1, n2)),
        (8, _, _, 2) => Some(Instr::And(n1, n2)),
        (8, _, _, 3) => Some(Instr::Xor(n1, n2)),
        (8, _, _, 4) => Some(Instr::AddReg(n1, n2)),
        (8, _, _, 5) => Some(Instr::SubReg(n1, n2)),
        (8, _, _, 6) => Some(Instr::Shr(n1)),
        (8, _, _, 7) => Some(Instr::SubFrom(n1, n2)),
        (8, _, _, 0xE) => Some(Instr::Shl(n1)),
        (9, _, _, 0) => Some(Instr::SkipNeReg(n1, n2)),
        (0xA, _, _, _) => Some(Instr::SetIndex(nnn)),
        (0xB, _, _, _) => Some(Instr::JumpV0(nnn)),
        (0xC, _, _, _) => Some(Instr::Rand(n1, nn)),
        (0xD, _, _, _) => Some(Instr::Draw(n1, n2, n3)),
        (0xE, _, 9, 0xE) => Some(Instr::SkipKey(n1)),
        (0xE, _, 0xA, 1) => Some(Instr::SkipNoKey(n1)),
        (0xF, _, 0, 7) => Some(Instr::GetDelay(n1)),
        (0xF, _, 0, 0xA) => Some(Instr::WaitKey(n1)),
        (0xF, _, 1, 5) => Some(Instr::SetDelay(n1)),
        (0xF, _, 1, 8) => Some(Instr::SetSound(n1)),
        (0xF, _, 1, 0xE) => Some(Instr::AddIndex(n1)),
        (0xF, _, 2, 9) => Some(Instr::Glyph(n1)),
        (0xF, _, 3, 3) => Some(Instr::Bcd(n1)),
        (0xF, _, 5, 5) => Some(Instr::StoreRegs(n1)),
        (0xF, _, 6, 5) => Some(Instr::LoadRegs(n1)),
        _ => None,
    }
}

/// Splits an instruction word into its four nibbles and classifies it,
/// exactly as `decode_spec` states.
pub fn decode(op: u16) -> (r: Option<Instr>)
    ensures
        r == decode_spec(op),
        r matches Some(i) ==> instr_wf(i),
{
    let n0: u8 = (op / 0x1000) as u8;
    let n1: u8 = ((op / 0x100) % 16) as u8;
    let n2: u8 = ((op / 16) % 16) as u8;
    let n3: u8 = (op % 16) as u8;
    let nn: u8 = (op % 0x100) as u8;
    let nnn: u16 = op % 0x1000;
    match (n0, n1, n2, n3) {
        (0, 0, 0, 0) => Some(Instr::Nop),
        (0, 0, 0xE, 0) => Some(Instr::Cls),
        (0, 0, 0xE, 0xE) => Some(Instr::Ret),
        (1, _, _, _) => Some(Instr::Jump(nnn)),
        (2, _, _, _) => Some(Instr::Call(nnn)),
        (3, _, _, _) => Some(Instr::SkipEqImm(n1, nn)),
        (4, _, _, _) => Some(Instr::SkipNeImm(n1, nn)),
        (5, _, _, 0) => Some(Instr::SkipEqReg(n1, n2)),
        (6, _, _, _) => Some(Instr::SetImm(n1, nn)),
        (7, _, _, _) => Some(Instr::AddImm(n1, nn)),
        (8, _, _, 0) => Some(Instr::Mov(n1, n2)),
        (8, _, _, 1) => Some(Instr::Or(n1, n2)),
        (8, _, _, 2) => Some(Instr::And(n1, n2)),
        (8, _, _, 3) => Some(Instr::Xor(n1, n2)),
        (8, _, _, 4) => Some(Instr::AddReg(n1, n2)),
        (8, _, _, 5) => Some(Instr::SubReg(n1, n2)),
        (8, _, _, 6) => Some(Instr::Shr(n1)),
        (8, _, _, 7) => Some(Instr::SubFrom(n1, n2)),
        (8, _, _, 0xE) => Some(Instr::Shl(n1)),
        (9, _, _, 0) => Some(Instr::SkipNeReg(n1, n2)),
        (0xA, _, _, _) => Some(Instr::SetIndex(nnn)),
        (0xB, _, _, _) => Some(Instr::JumpV0(nnn)),
        (0xC, _, _, _) => Some(Instr::Rand(n1, nn)),
        (0xD, _, _, _) => Some(Instr::Draw(n1, n2, n3)),
        (0xE, _, 9, 0xE) => Some(Instr::SkipKey(n1)),
        (0xE, _, 0xA, 1) => Some(Instr::SkipNoKey(n1)),
        (0xF, _, 0, 7) => Some(Instr::GetDelay(n1)),
        (0xF, _, 0, 0xA) => Some(Instr::WaitKey(n1)),
        (0xF, _, 1, 5) => Some(Instr::SetDelay(n1)),
        (0xF, _, 1, 8) => Some(Instr::SetSound(n1)),
        (0xF, _, 1, 0xE) => Some(Instr::AddIndex(n1)),
        (0xF, _, 2, 9) => Some(Instr::Glyph(n1)),
        (0xF, _, 3, 3) => Some(Instr::Bcd(n1)),
        (0xF, _, 5, 5) => Some(Instr::StoreRegs(n1)),
        (0xF, _, 6, 5) => Some(Instr::LoadRegs(n1)),
        _ => None,
    }
}

} // verus!
