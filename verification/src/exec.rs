//! The semantics of every instruction as a pure transition on the machine
//! state model: the fault rule that guards a step, the per-instruction
//! effect, and the whole fetch-decode-execute step.

use vstd::prelude::*;

use crate::draw::draw_collision;
use crate::draw::draw_screen_spec;
use crate::emu::EmuView;
use crate::emu::word_at;
use crate::emu::GLYPH_BYTES;
use crate::emu::NUM_KEYS;
use crate::emu::RAM_SIZE;
use crate::emu::STACK_SIZE;
use crate::instr::decode_spec;
use crate::instr::Fault;
use crate::instr::Instr;

verus! {

/// An 8-bit wrap of a mathematical integer.
pub open spec fn wrap8(n: int) -> u8 {
    (n % 0x100) as u8
}

/// A 16-bit wrap of a mathematical integer.
pub open spec fn wrap16(n: int) -> u16 {
    (n % 0x10000) as u16
}

/// The lowest-numbered pressed key at or after slot `j`, if any.
pub open spec fn first_key_from(keys: Seq<bool>, j: int) -> Option<u8>
    decreases 16 - j,
{
    if j < 0 || j >= 16 {
        None
    } else if keys[j] {
        Some(j as u8)
    } else {
        first_key_from(keys, j + 1)
    }
}

/// `s` with the program counter moved past the instruction just fetched.
pub open spec fn advanced(s: EmuView) -> EmuView {
    EmuView { pc: (s.pc + 2) as u16, ..s }
}

/// The fault instruction `i` reports in state `s`, if any: stack misuse
/// by calls and returns, an index-register window that leaves memory, or
/// a key-skip selector outside the pad. No other instruction can fault.
pub open spec fn fault_of(s: EmuView, i: Instr) -> Option<Fault> {
    match i {
        Instr::Ret => if s.sp == 0 {
            Some(Fault::StackUnderflow)
        } else {
            None
        },
        Instr::Call(_) => if s.sp >= STACK_SIZE {
            Some(Fault::StackOverflow)
        } else {
            None
        },
        Instr::Draw(_, _, n) => if s.i + n > RAM_SIZE {
            Some(Fault::MemoryOutOfBounds)
        } else {
            None
        },
        Instr::SkipKey(x) => if s.v[x as int] >= NUM_KEYS {
            Some(Fault::KeyOutOfRange)
        } else {
            None
        },
        Instr::SkipNoKey(x) => if s.v[x as int] >= NUM_KEYS {
            Some(Fault::KeyOutOfRange)
        } else {
            None
        },
        Instr::Bcd(_) => if s.i + 3 > RAM_SIZE {
            Some(Fault::MemoryOutOfBounds)
        } else {
            None
        },
        Instr::StoreRegs(x) => if s.i + x + 1 > RAM_SIZE {
            Some(Fault::MemoryOutOfBounds)
        } else {
            None
        },
        Instr::LoadRegs(x) => if s.i + x + 1 > RAM_SIZE {
            Some(Fault::MemoryOutOfBounds)
        } else {
            None
        },
        _ => None,
    }
}

/// The state after instruction `i` executes in state `s`, where the
/// program counter of `s` already points past the instruction, `rnd` is
/// the byte the random source produced, and `fault_of(s, i)` is `None`.
pub open spec fn apply_ok(s: EmuView, i: Instr, rnd: u8) -> EmuView {
    match i {
        Instr::Nop => s,
        Instr::Cls => EmuView { screen: Seq::new(s.screen.len(), |j: int| false), ..s },
        Instr::Ret => EmuView { pc: s.stack[s.sp - 1], sp: (s.sp - 1) as u16, ..s },
        Instr::Jump(nnn) => EmuView { pc: nnn, ..s },
        Instr::Call(nnn) => EmuView {
            stack: s.stack.update(s.sp as int, s.pc),
            sp: (s.sp + 1) as u16,
            pc: nnn,
            ..s
        },
        Instr::SkipEqImm(x, nn) => if s.v[x as int] == nn {
            advanced(s)
        } else {
            s
        },
        Instr::SkipNeImm(x, nn) => if s.v[x as int] != nn {
            advanced(s)
        } else {
            s
        },
        Instr::SkipEqReg(x, y) => if s.v[x as int] == s.v[y as int] {
            advanced(s)
        } else {
            s
        },
        Instr::SetImm(x, nn) => EmuView { v: s.v.update(x as int, nn), ..s },
        Instr::AddImm(x, nn) => EmuView {
            v: s.v.update(x as int, wrap8(s.v[x as int] + nn)),
            ..s
        },
        Instr::Mov(x, y) => EmuView { v: s.v.update(x as int, s.v[y as int]), ..s },
        Instr::Or(x, y) => EmuView {
            v: s.v.update(x as int, s.v[x as int] | s.v[y as int]),
            ..s
        },
        Instr::And(x, y) => EmuView {
            v: s.v.update(x as int, s.v[x as int] & s.v[y as int]),
            ..s
        },
        Instr::Xor(x, y) => EmuView {
            v: s.v.update(x as int, s.v[x as int] ^ s.v[y as int]),
            ..s
        },
        Instr::AddReg(x, y) => EmuView {
            v: s.v.update(x as int, wrap8(s.v[x as int] + s.v[y as int])).update(
                15,
                if s.v[x as int] + s.v[y as int] > 255 {
                    1u8
                } else {
                    0u8
                },
            ),
            ..s
        },
        Instr::SubReg(x, y) => EmuView {
            v: s.v.update(x as int, wrap8(s.v[x as int] - s.v[y as int])).update(
                15,
                if s.v[x as int] >= s.v[y as int] {
                    1u8
                } else {
                    0u8
                },
            ),
            ..s
        },
        Instr::Shr(x) => EmuView {
            v: s.v.update(x as int, (s.v[x as int] / 2) as u8).update(
                15,
                (s.v[x as int] % 2) as u8,
            ),
            ..s
        },
        Instr::SubFrom(x, y) => EmuView {
            v: s.v.update(x as int, wrap8(s.v[y as int] - s.v[x as int])).update(
                15,
                if s.v[y as int] >= s.v[x as int] {
                    1u8
                } else {
                    0u8
                },
            ),
            ..s
        },
        Instr::Shl(x) => EmuView {
            v: s.v.update(x as int, wrap8(2 * s.v[x as int])).update(
                15,
                (s.v[x as int] / 128) as u8,
            ),
            ..s
        },
        Instr::SkipNeReg(x, y) => if s.v[x as int] != s.v[y as int] {
            advanced(s)
        } else {
            s
        },
        Instr::SetIndex(nnn) => EmuView { i: nnn, ..s },
        Instr::JumpV0(nnn) => EmuView { pc: (s.v[0] + nnn) as u16, ..s },
        Instr::Rand(x, nn) => EmuView { v: s.v.update(x as int, rnd & nn), ..s },
        Instr::Draw(x, y, n) => EmuView {
            screen: draw_screen_spec(s.screen, s.ram, s.i, s.v[x as int], s.v[y as int], n),
            v: s.v.update(
                15,
                if draw_collision(s.screen, s.ram, s.i, s.v[x as int], s.v[y as int], n) {
                    1u8
                } else {
                    0u8
                },
            ),
            ..s
        },
        Instr::SkipKey(x) => if s.keys[s.v[x as int] as int] {
            advanced(s)
        } else {
            s
        },
        Instr::SkipNoKey(x) => if !s.keys[s.v[x as int] as int] {
            advanced(s)
        } else {
            s
        },
        Instr::GetDelay(x) => EmuView { v: s.v.update(x as int, s.dt), ..s },
        Instr::WaitKey(x) => match first_key_from(s.keys, 0) {
            Some(k) => EmuView { v: s.v.update(x as int, k), ..s },
            None => EmuView { pc: (s.pc - 2) as u16, ..s },
        },
        Instr::SetDelay(x) => EmuView { dt: s.v[x as int], ..s },
        Instr::SetSound(x) => EmuView { st: s.v[x as int], ..s },
        Instr::AddIndex(x) => EmuView { i: wrap16(s.i + s.v[x as int]), ..s },
        Instr::Glyph(x) => EmuView { i: (s.v[x as int] * GLYPH_BYTES) as u16, ..s },
        Instr::Bcd(x) => EmuView {
            ram: s.ram.update(s.i as int, (s.v[x as int] / 100) as u8).update(
                s.i as int + 1,
                ((s.v[x as int] / 10) % 10) as u8,
            ).update(s.i as int + 2, (s.v[x as int] % 10) as u8),
            ..s
        },
        Instr::StoreRegs(x) => EmuView {
            ram: Seq::new(
                s.ram.len(),
                |j: int|
                    if s.i <= j <= s.i + x {
                        s.v[j - s.i]
                    } else {
                        s.ram[j]
                    },
            ),
            ..s
        },
        Instr::LoadRegs(x) => EmuView {
            v: Seq::new(
                s.v.len(),
                |j: int|
                    if 0 <= j <= x {
                        s.ram[s.i + j]
                    } else {
                        s.v[j]
                    },
            ),
            ..s
        },
    }
}

/// One whole interpreter step in state `s` with `rnd` as the byte the
/// random source produced: fetch the word at the program counter, advance
/// the counter past it, decode, and execute. An `Err` is a fatal fault;
/// a step that faults applies no effect at all.
pub open spec fn step_spec(s: EmuView, rnd: u8) -> Result<EmuView, Fault> {
    if s.pc + 1 >= RAM_SIZE {
        Err(Fault::PcOutOfBounds)
    } else {
        let op = word_at(s);
        match decode_spec(op) {
            None => Err(Fault::UnknownOpcode(op)),
            Some(i) => match fault_of(advanced(s), i) {
                Some(f) => Err(f),
                None => Ok(apply_ok(advanced(s), i, rnd)),
            },
        }
    }
}

} // verus!
