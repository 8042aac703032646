//! The laws of the instruction semantics: general properties that hold of
//! every state and input, each stated over the transition specs and proved.

use vstd::prelude::*;

use crate::draw::draw_collision;
use crate::draw::lemma_draw_twice_restores;
use crate::draw::lemma_second_draw_collision;
use crate::draw::pos_bit;
use crate::draw::pos_row;
use crate::draw::sprite_bit;
use crate::draw::target_idx;
use crate::emu::load_spec;
use crate::emu::wf_state;
use crate::emu::word_at;
use crate::emu::EmuView;
use crate::emu::RAM_SIZE;
use crate::emu::START_ADDR;
use crate::exec::advanced;
use crate::exec::apply_ok;
use crate::exec::fault_of;
use crate::exec::first_key_from;
use crate::exec::step_spec;
use crate::instr::decode_spec;
use crate::instr::nib0;
use crate::instr::nib1;
use crate::instr::nib3;
use crate::instr::Fault;
use crate::instr::Instr;

verus! {

/// Setting a register from an immediate stores exactly that immediate:
/// after the set-immediate instruction executes, register VX reads NN, and
/// nothing changes but that one register.
pub proof fn lemma_set_imm_stores(s: EmuView, x: u8, nn: u8, rnd: u8)
    requires
        wf_state(s),
        x < 16,
    ensures
        apply_ok(s, Instr::SetImm(x, nn), rnd).v[x as int] == nn,
        apply_ok(s, Instr::SetImm(x, nn), rnd) == (EmuView { v: s.v.update(x as int, nn), ..s }),
{
}

/// The add-immediate instruction wraps modulo 256 and touches no flag: VX
/// becomes (VX + NN) mod 256, and every other register — the flag register
/// VF included, when it is not VX itself — keeps its value.
pub proof fn lemma_add_imm_wraps(s: EmuView, x: u8, nn: u8, rnd: u8)
    requires
        wf_state(s),
        x < 16,
    ensures
        ({
            let s2 = apply_ok(s, Instr::AddImm(x, nn), rnd);
            &&& s2.v[x as int] == (s.v[x as int] + nn) % 256
            &&& (forall|j: int| 0 <= j < 16 && j != x ==> s2.v[j] == s.v[j])
            &&& s2 == (EmuView { v: s2.v, ..s })
        }),
{
}

/// Register addition: VF is 1 exactly when the unsigned sum exceeds 255
/// and 0 otherwise, and VX — when it is not the flag register itself —
/// holds the sum reduced modulo 256.
pub proof fn lemma_add_reg_carry(s: EmuView, x: u8, y: u8, rnd: u8)
    requires
        wf_state(s),
        x < 16,
        y < 16,
    ensures
        ({
            let s2 = apply_ok(s, Instr::AddReg(x, y), rnd);
            &&& (s2.v[15] == 1 <==> s.v[x as int] + s.v[y as int] > 255)
            &&& (s2.v[15] == 1 || s2.v[15] == 0)
            &&& (x != 15 ==> s2.v[x as int] == (s.v[x as int] + s.v[y as int]) % 256)
        }),
{
}

/// Register subtraction: VF is 1 exactly when no borrow occurs, that is,
/// when VX is at least VY, and VX — when it is not the flag register —
/// holds the difference reduced modulo 256.
pub proof fn lemma_sub_reg_borrow(s: EmuView, x: u8, y: u8, rnd: u8)
    requires
        wf_state(s),
        x < 16,
        y < 16,
    ensures
        ({
            let s2 = apply_ok(s, Instr::SubReg(x, y), rnd);
            &&& (s2.v[15] == 1 <==> s.v[x as int] >= s.v[y as int])
            &&& (s2.v[15] == 1 || s2.v[15] == 0)
            &&& (x != 15 ==> s2.v[x as int] == (s.v[x as int] - s.v[y as int]) % 256)
        }),
{
}

/// The right shift captures the shifted-out low bit of the pre-shift VX in
/// VF — VX mod 2 — and halves VX when VX is not the flag register itself.
pub proof fn lemma_shr_flag(s: EmuView, x: u8, rnd: u8)
    requires
        wf_state(s),
        x < 16,
    ensures
        ({
            let s2 = apply_ok(s, Instr::Shr(x), rnd);
            &&& s2.v[15] == s.v[x as int] % 2
            &&& (x != 15 ==> s2.v[x as int] == s.v[x as int] / 2)
        }),
{
}

/// The left shift captures the shifted-out high bit of the pre-shift VX in
/// VF — VX div 128 — and doubles VX modulo 256 when VX is not the flag
/// register itself.
pub proof fn lemma_shl_flag(s: EmuView, x: u8, rnd: u8)
    requires
        wf_state(s),
        x < 16,
    ensures
        ({
            let s2 = apply_ok(s, Instr::Shl(x), rnd);
            &&& s2.v[15] == s.v[x as int] / 128
            &&& (x != 15 ==> s2.v[x as int] == (2 * s.v[x as int]) % 256)
        }),
{
}

/// Decoding a right-shift encoding ignores the Y selector nibble: every
/// instruction word of family 8 with low nibble 6 decodes to the right
/// shift on X, whatever its third nibble holds.
pub proof fn lemma_shr_decode_ignores_y(op: u16)
    requires
        nib0(op) == 8,
        nib3(op) == 6,
    ensures
        decode_spec(op) == Some(Instr::Shr(nib1(op))),
{
}

/// Decoding a left-shift encoding ignores the Y selector nibble: every
/// instruction word of family 8 with low nibble 0xE decodes to the left
/// shift on X, whatever its third nibble holds.
pub proof fn lemma_shl_decode_ignores_y(op: u16)
    requires
        nib0(op) == 8,
        nib3(op) == 0xE,
    ensures
        decode_spec(op) == Some(Instr::Shl(nib1(op))),
{
}

/// Clearing the display sets every cell to false, whatever it held, and
/// changes nothing else.
pub proof fn lemma_cls_clears(s: EmuView, rnd: u8)
    requires
        wf_state(s),
    ensures
        ({
            let s2 = apply_ok(s, Instr::Cls, rnd);
            &&& (forall|idx: int| 0 <= idx < s2.screen.len() ==> !s2.screen[idx])
            &&& s2.screen.len() == s.screen.len()
            &&& s2 == (EmuView { screen: s2.screen, ..s })
        }),
{
}

/// A subroutine call followed immediately by a return is a net no-op on
/// control flow: whatever the return instruction's own fetch set the
/// program counter to, after the return it is back at its value right
/// after the call instruction, the stack pointer is back where it was, and
/// nothing differs but the stack slot the call wrote.
pub proof fn lemma_call_then_ret(s: EmuView, nnn: u16, pc2: u16, rnd1: u8, rnd2: u8)
    requires
        wf_state(s),
        s.sp < 16,
    ensures
        ({
            let s1 = apply_ok(s, Instr::Call(nnn), rnd1);
            let s2 = apply_ok(EmuView { pc: pc2, ..s1 }, Instr::Ret, rnd2);
            &&& (fault_of(EmuView { pc: pc2, ..s1 }, Instr::Ret) is None)
            &&& s2.pc == s.pc
            &&& s2.sp == s.sp
            &&& s2 == (EmuView { stack: s.stack.update(s.sp as int, s.pc), ..s })
        }),
{
    let s1 = apply_ok(s, Instr::Call(nnn), rnd1);
    let s2 = apply_ok(EmuView { pc: pc2, ..s1 }, Instr::Ret, rnd2);
    assert(s2 =~= (EmuView { stack: s.stack.update(s.sp as int, s.pc), ..s }));
}

/// Drawing the same sprite at the same anchor twice in succession gives
/// the display back exactly as it was — every cell the first draw lit is
/// turned off again — and the second draw reports a collision exactly when
/// some set sprite bit had landed on a cell that was unlit at first. The
/// anchor registers must not be the flag register, which the first draw
/// overwrites.
pub proof fn lemma_draw_twice(s: EmuView, x: u8, y: u8, n: u8, rnd1: u8, rnd2: u8)
    requires
        wf_state(s),
        x < 16,
        y < 16,
        x != 15,
        y != 15,
        s.i + n <= RAM_SIZE,
    ensures
        ({
            let s1 = apply_ok(s, Instr::Draw(x, y, n), rnd1);
            let s2 = apply_ok(s1, Instr::Draw(x, y, n), rnd2);
            &&& s2.screen == s.screen
            &&& (s1.v[15] == 1 <==> draw_collision(
                s.screen,
                s.ram,
                s.i,
                s.v[x as int],
                s.v[y as int],
                n,
            ))
            &&& (s2.v[15] == 1 <==> (exists|q: int|
                0 <= q < 8 * n && sprite_bit(s.ram[s.i + pos_row(q)], pos_bit(q) as u8)
                    && !s.screen[target_idx(s.v[x as int], s.v[y as int], pos_row(q), pos_bit(q))]))
        }),
{
    let vx = s.v[x as int];
    let vy = s.v[y as int];
    let s1 = apply_ok(s, Instr::Draw(x, y, n), rnd1);
    assert(s1.v[x as int] == vx && s1.v[y as int] == vy);
    lemma_draw_twice_restores(s.screen, s.ram, s.i, vx, vy, n);
    lemma_second_draw_collision(s.screen, s.ram, s.i, vx, vy, n);
}

/// No pressed key at or after slot `j` means no first pressed key at or
/// after slot `j`.
proof fn lemma_no_key_none(keys: Seq<bool>, j: int)
    requires
        0 <= j <= 16,
        forall|k: int| j <= k < 16 ==> !keys[k],
    ensures
        first_key_from(keys, j) is None,
    decreases 16 - j,
{
    if j < 16 {
        assert(!keys[j]);
        lemma_no_key_none(keys, j + 1);
    }
}

/// A wait-for-key step with no key pressed is a net no-op: the fetch
/// advances the program counter by 2 and the instruction rewinds it by 2,
/// so one whole step returns exactly the state it started from.
pub proof fn lemma_wait_key_no_press(s: EmuView, rnd: u8)
    requires
        wf_state(s),
        s.pc + 1 < RAM_SIZE,
        (decode_spec(word_at(s)) matches Some(Instr::WaitKey(_))),
        forall|k: int| 0 <= k < 16 ==> !s.keys[k],
    ensures
        step_spec(s, rnd) == Ok::<EmuView, Fault>(s),
{
    lemma_no_key_none(s.keys, 0);
    match decode_spec(word_at(s)) {
        Some(Instr::WaitKey(x)) => {
            assert(apply_ok(advanced(s), Instr::WaitKey(x), rnd) =~= s);
        },
        _ => {
            assert(false);
        },
    }
}

/// A program load writes only at the load offset and above: every byte
/// below the offset — the reserved glyph region among them — keeps its
/// value.
pub proof fn lemma_load_preserves_low_memory(s: EmuView, data: Seq<u8>, j: int)
    requires
        wf_state(s),
        START_ADDR + data.len() <= RAM_SIZE,
        0 <= j < START_ADDR,
    ensures
        load_spec(s, data).ram[j] == s.ram[j],
{
}

} // verus!
