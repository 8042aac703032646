//! The machine state — memory, registers, call stack, timers, keypad and
//! display — with construction, program load, key input, the raw fetch and
//! stack primitives, and the timer tick.

use vstd::prelude::*;

use crate::draw::collision_upto;
use crate::draw::draw_collision;
use crate::draw::draw_screen_spec;
use crate::draw::hit_upto;
use crate::draw::lemma_collision_upto_mono;
use crate::draw::lemma_hit_upto_mono;
use crate::draw::lemma_target_in_range;
use crate::draw::lemma_target_injective;
use crate::draw::pos_bit;
use crate::draw::pos_row;
use crate::draw::sprite_bit;
use crate::draw::target_idx;
use crate::draw::wrap_x;
use crate::draw::wrap_y;
use crate::exec::advanced;
use crate::exec::apply_ok;
use crate::exec::fault_of;
use crate::exec::first_key_from;
use crate::exec::step_spec;
use crate::instr::decode;
use crate::instr::instr_wf;
use crate::instr::Fault;
use crate::instr::Instr;

verus! {

use vstd::arithmetic::div_mod::lemma_fundamental_div_mod;

/// Bytes of addressable memory.
pub const RAM_SIZE: usize = 4096;
/// General-purpose registers V0..=VF.
pub const NUM_REGS: usize = 16;
/// Slots of the call stack.
pub const STACK_SIZE: usize = 16;
/// Logical keys on the pad.
pub const NUM_KEYS: usize = 16;
/// Display width in pixels.
pub const SCREEN_WIDTH: usize = 64;
/// Display height in pixels.
pub const SCREEN_HEIGHT: usize = 32;
/// Address at which a program image is loaded and execution starts.
pub const START_ADDR: u16 = 0x200;
/// Bytes of the built-in glyph table: 16 glyphs of 5 rows each.
pub const FONTSET_SIZE: usize = 80;
/// Rows (bytes) of one built-in glyph.
pub const GLYPH_BYTES: u16 = 5;

/// The mathematical model of the whole machine state.
#[verifier::ext_equal]
pub ghost struct EmuView {
    /// Address of the next instruction.
    pub pc: u16,
    /// Addressable memory, `RAM_SIZE` bytes.
    pub ram: Seq<u8>,
    /// Display cells, row-major, `SCREEN_WIDTH * SCREEN_HEIGHT` entries.
    pub screen: Seq<bool>,
    /// The registers V0..=VF.
    pub v: Seq<u8>,
    /// The 16-bit index register I.
    pub i: u16,
    /// Stack pointer: number of return addresses held.
    pub sp: u16,
    /// Call stack slots.
    pub stack: Seq<u16>,
    /// Pressed state of the 16 pad keys.
    pub keys: Seq<bool>,
    /// Delay timer.
    pub dt: u8,
    /// Sound timer; nonzero means sound should be active.
    pub st: u8,
}

/// The fixed shape of a machine state: every array has its size and the
/// stack pointer stays within the stack.
pub open spec fn wf_state(s: EmuView) -> bool {
    &&& s.ram.len() == RAM_SIZE
    &&& s.screen.len() == SCREEN_WIDTH * SCREEN_HEIGHT
    &&& s.v.len() == NUM_REGS
    &&& s.stack.len() == STACK_SIZE
    &&& s.keys.len() == NUM_KEYS
    &&& s.sp <= STACK_SIZE
}

/// The 80 bytes of the built-in glyph table: one 8x5 bitmap per
/// hexadecimal digit, in digit order.
pub open spec fn glyph_table_spec() -> Seq<u8> {
    seq![
        0xF0u8, 0x90, 0x90, 0x90, 0xF0, // 0
        0x20, 0x60, 0x20, 0x20, 0x70, // 1
        0xF0, 0x10, 0xF0, 0x80, 0xF0, // 2
        0xF0, 0x10, 0xF0, 0x10, 0xF0, // 3
        0x90, 0x90, 0xF0, 0x10, 0x10, // 4
        0xF0, 0x80, 0xF0, 0x10, 0xF0, // 5
        0xF0, 0x80, 0xF0, 0x90, 0xF0, // 6
        0xF0, 0x10, 0x20, 0x40, 0x40, // 7
        0xF0, 0x90, 0xF0, 0x90, 0xF0, // 8
        0xF0, 0x90, 0xF0, 0x10, 0xF0, // 9
        0xF0, 0x90, 0xF0, 0x90, 0x90, // A
        0xE0, 0x90, 0xE0, 0x90, 0xE0, // B
        0xF0, 0x80, 0x80, 0x80, 0xF0, // C
        0xE0, 0x90, 0x90, 0x90, 0xE0, // D
        0xF0, 0x80, 0xF0, 0x80, 0xF0, // E
        0xF0, 0x80, 0xF0, 0x80, 0x80, // F
    ]
}

/// The state a machine has right after construction: memory zeroed except
/// for the glyph table in the reserved low region, every register, timer,
/// key and display cell zeroed, and the program counter at the load offset.
pub open spec fn init_state() -> EmuView {
    EmuView {
        pc: START_ADDR,
        ram: Seq::new(
            RAM_SIZE as nat,
            |j: int| if j < FONTSET_SIZE { glyph_table_spec()[j] } else { 0u8 },
        ),
        screen: Seq::new((SCREEN_WIDTH * SCREEN_HEIGHT) as nat, |j: int| false),
        v: Seq::new(NUM_REGS as nat, |j: int| 0u8),
        i: 0u16,
        sp: 0u16,
        stack: Seq::new(STACK_SIZE as nat, |j: int| 0u16),
        keys: Seq::new(NUM_KEYS as nat, |j: int| false),
        dt: 0u8,
        st: 0u8,
    }
}

/// The state after a program image `data` is copied into memory at the
/// load offset; everything outside that window is untouched.
pub open spec fn load_spec(s: EmuView, data: Seq<u8>) -> EmuView {
    EmuView {
        ram: Seq::new(
            RAM_SIZE as nat,
            |j: int|
                if START_ADDR <= j < START_ADDR + data.len() {
                    data[j - START_ADDR]
                } else {
                    s.ram[j]
                },
        ),
        ..s
    }
}

/// The big-endian instruction word found at the program counter.
pub open spec fn word_at(s: EmuView) -> u16 {
    (s.ram[s.pc as int] * 0x100 + s.ram[s.pc as int + 1]) as u16
}

/// One saturating timer decrement.
pub open spec fn dec_timer(t: u8) -> u8 {
    if t > 0 {
        (t - 1) as u8
    } else {
        0u8
    }
}

/// The interpreter core: the shared state block every instruction acts on.
pub struct Emu {
    pc: u16,
    ram: Vec<u8>,
    screen: Vec<bool>,
    v_reg: Vec<u8>,
    i_reg: u16,
    sp: u16,
    stack: Vec<u16>,
    keys: Vec<bool>,
    dt: u8,
    st: u8,
}

impl View for Emu {
    type V = EmuView;

    closed spec fn view(&self) -> EmuView {
        EmuView {
            pc: self.pc,
            ram: self.ram@,
            screen: self.screen@,
            v: self.v_reg@,
            i: self.i_reg,
            sp: self.sp,
            stack: self.stack@,
            keys: self.keys@,
            dt: self.dt,
            st: self.st,
        }
    }
}

/// Builds the glyph table as bytes.
fn glyph_table() -> (r: Vec<u8>)
    ensures
        r@ == glyph_table_spec(),
{
    let mut t: Vec<u8> = Vec::new();
    t.push(0xF0); t.push(0x90); t.push(0x90); t.push(0x90); t.push(0xF0);
    t.push(0x20); t.push(0x60); t.push(0x20); t.push(0x20); t.push(0x70);
    t.push(0xF0); t.push(0x10); t.push(0xF0); t.push(0x80); t.push(0xF0);
    t.push(0xF0); t.push(0x10); t.push(0xF0); t.push(0x10); t.push(0xF0);
    t.push(0x90); t.push(0x90); t.push(0xF0); t.push(0x10); t.push(0x10);
    t.push(0xF0); t.push(0x80); t.push(0xF0); t.push(0x10); t.push(0xF0);
    t.push(0xF0); t.push(0x80); t.push(0xF0); t.push(0x90); t.push(0xF0);
    t.push(0xF0); t.push(0x10); t.push(0x20); t.push(0x40); t.push(0x40);
    t.push(0xF0); t.push(0x90); t.push(0xF0); t.push(0x90); t.push(0xF0);
    t.push(0xF0); t.push(0x90); t.push(0xF0); t.push(0x10); t.push(0xF0);
    t.push(0xF0); t.push(0x90); t.push(0xF0); t.push(0x90); t.push(0x90);
    t.push(0xE0); t.push(0x90); t.push(0xE0); t.push(0x90); t.push(0xE0);
    t.push(0xF0); t.push(0x80); t.push(0x80); t.push(0x80); t.push(0xF0);
    t.push(0xE0); t.push(0x90); t.push(0x90); t.push(0x90); t.push(0xE0);
    t.push(0xF0); t.push(0x80); t.push(0xF0); t.push(0x80); t.push(0xF0);
    t.push(0xF0); t.push(0x80); t.push(0xF0); t.push(0x80); t.push(0x80);
    proof {
        assert(t@ =~= glyph_table_spec());
    }
    t
}

/// Builds a byte vector of `n` zeros.
fn zero_bytes(n: usize) -> (r: Vec<u8>)
    ensures
        r@ == Seq::new(n as nat, |j: int| 0u8),
{
    let mut v: Vec<u8> = Vec::new();
    let mut j: usize = 0;
    while j < n
        invariant
            j <= n,
            v@.len() == j,
            forall|k: int| 0 <= k < j ==> v@[k] == 0u8,
        decreases n - j,
    {
        v.push(0);
        j += 1;
    }
    proof {
        assert(v@ =~= Seq::new(n as nat, |j: int| 0u8));
    }
    v
}

/// Builds a word vector of `n` zeros.
fn zero_words(n: usize) -> (r: Vec<u16>)
    ensures
        r@ == Seq::new(n as nat, |j: int| 0u16),
{
    let mut v: Vec<u16> = Vec::new();
    let mut j: usize = 0;
    while j < n
        invariant
            j <= n,
            v@.len() == j,
            forall|k: int| 0 <= k < j ==> v@[k] == 0u16,
        decreases n - j,
    {
        v.push(0);
        j += 1;
    }
    proof {
        assert(v@ =~= Seq::new(n as nat, |j: int| 0u16));
    }
    v
}

/// Builds a flag vector of `n` cleared cells.
fn cleared_flags(n: usize) -> (r: Vec<bool>)
    ensures
        r@ == Seq::new(n as nat, |j: int| false),
{
    let mut v: Vec<bool> = Vec::new();
    let mut j: usize = 0;
    while j < n
        invariant
            j <= n,
            v@.len() == j,
            forall|k: int| 0 <= k < j ==> v@[k] == false,
        decreases n - j,
    {
        v.push(false);
        j += 1;
    }
    proof {
        assert(v@ =~= Seq::new(n as nat, |j: int| false));
    }
    v
}

impl Emu {
    /// The state is well-formed: arrays have their fixed sizes and the
    /// stack pointer is within the stack.
    pub open spec fn wf(&self) -> bool {
        wf_state(self@)
    }

    /// A fully zeroed machine with the glyph table in low memory and the
    /// program counter at the load offset. Cannot fail.
    pub fn new() -> (r: Emu)
        ensures
            r.wf(),
            r@ == init_state(),
    {
        let font = glyph_table();
        let mut ram = zero_bytes(RAM_SIZE);
        let mut k: usize = 0;
        while k < FONTSET_SIZE
            invariant
                k <= FONTSET_SIZE,
                font@ == glyph_table_spec(),
                ram@.len() == RAM_SIZE,
                forall|m: int| 0 <= m < k ==> ram@[m] == glyph_table_spec()[m],
                forall|m: int| k <= m < RAM_SIZE ==> ram@[m] == 0u8,
            decreases FONTSET_SIZE - k,
        {
            let b = font[k];
            ram.set(k, b);
            k += 1;
        }
        let r = Emu {
            pc: START_ADDR,
            ram,
            screen: cleared_flags(SCREEN_WIDTH * SCREEN_HEIGHT),
            v_reg: zero_bytes(NUM_REGS),
            i_reg: 0,
            sp: 0,
            stack: zero_words(STACK_SIZE),
            keys: cleared_flags(NUM_KEYS),
            dt: 0,
            st: 0,
        };
        proof {
            assert(r@.ram =~= init_state().ram);
            assert(r@ =~= init_state());
        }
        r
    }

    /// Copies a program image into memory at the load offset. An image
    /// that would run past the end of memory is rejected whole, as an
    /// explicit out-of-bounds fault, and nothing is written.
    pub fn load(&mut self, data: &Vec<u8>) -> (r: Result<(), Fault>)
        requires
            old(self).wf(),
        ensures
            final(self).wf(),
            r is Ok <==> START_ADDR + data@.len() <= RAM_SIZE,
            r is Ok ==> final(self)@ == load_spec(old(self)@, data@),
            r is Err ==> final(self)@ == old(self)@ && r == Err::<(), Fault>(
                Fault::MemoryOutOfBounds,
            ),
    {
        let offset = START_ADDR as usize;
        if data.len() > RAM_SIZE - offset {
            return Err(Fault::MemoryOutOfBounds);
        }
        let mut idx: usize = 0;
        while idx < data.len()
            invariant
                old(self).wf(),
                idx <= data@.len(),
                offset == START_ADDR,
                data@.len() + offset <= RAM_SIZE,
                self@.ram.len() == RAM_SIZE,
                self@ == (EmuView { ram: self@.ram, ..old(self)@ }),
                forall|j: int|
                    offset <= j < offset + idx ==> self@.ram[j] == data@[j - offset],
                forall|j: int|
                    0 <= j < RAM_SIZE && !(offset <= j < offset + idx) ==> self@.ram[j]
                        == old(self)@.ram[j],
            decreases data@.len() - idx,
        {
            let b = data[idx];
            self.ram.set(offset + idx, b);
            idx += 1;
        }
        proof {
            assert(self@.ram =~= load_spec(old(self)@, data@).ram);
            assert(self@ =~= load_spec(old(self)@, data@));
        }
        Ok(())
    }

    /// Records a press or release of pad key `idx`; nothing else changes.
    pub fn keypress(&mut self, idx: usize, pressed: bool)
        requires
            old(self).wf(),
            idx < NUM_KEYS,
        ensures
            final(self).wf(),
            final(self)@ == (EmuView {
                keys: old(self)@.keys.update(idx as int, pressed),
                ..old(self)@
            }),
    {
        self.keys.set(idx, pressed);
    }

    /// Reads the two bytes at the program counter as one big-endian
    /// instruction word and advances the counter by 2.
    pub fn fetch(&mut self) -> (op: u16)
        requires
            old(self).wf(),
            old(self)@.pc + 1 < RAM_SIZE,
        ensures
            final(self).wf(),
            op == word_at(old(self)@),
            final(self)@ == (EmuView { pc: (old(self)@.pc + 2) as u16, ..old(self)@ }),
    {
        let hi = self.ram[self.pc as usize];
        let lo = self.ram[self.pc as usize + 1];
        let op: u16 = (hi as u16) * 0x100 + (lo as u16);
        self.pc = self.pc + 2;
        op
    }

    /// Appends a return address at the stack-pointer slot, then increments
    /// the pointer.
    pub fn push(&mut self, val: u16)
        requires
            old(self).wf(),
            old(self)@.sp < STACK_SIZE,
        ensures
            final(self).wf(),
            final(self)@ == (EmuView {
                stack: old(self)@.stack.update(old(self)@.sp as int, val),
                sp: (old(self)@.sp + 1) as u16,
                ..old(self)@
            }),
    {
        self.stack.set(self.sp as usize, val);
        self.sp = self.sp + 1;
    }

    /// Decrements the stack pointer, then reads the slot it points at.
    pub fn pop(&mut self) -> (val: u16)
        requires
            old(self).wf(),
            old(self)@.sp > 0,
        ensures
            final(self).wf(),
            val == old(self)@.stack[old(self)@.sp - 1],
            final(self)@ == (EmuView { sp: (old(self)@.sp - 1) as u16, ..old(self)@ }),
    {
        self.sp = self.sp - 1;
        self.stack[self.sp as usize]
    }

    /// One periodic timer cycle: each timer decrements toward zero and
    /// saturates there. Returns whether sound was active this cycle, that
    /// is, whether the sound timer was nonzero before the decrement.
    pub fn tick_timers(&mut self) -> (sound: bool)
        requires
            old(self).wf(),
        ensures
            final(self).wf(),
            sound == (old(self)@.st > 0),
            final(self)@ == (EmuView {
                dt: dec_timer(old(self)@.dt),
                st: dec_timer(old(self)@.st),
                ..old(self)@
            }),
    {
        let sound = self.st > 0;
        if self.dt > 0 {
            self.dt = self.dt - 1;
        }
        if self.st > 0 {
            self.st = self.st - 1;
        }
        sound
    }

    /// The display buffer: row-major cells, index = width * y + x.
    pub fn get_display(&self) -> (r: &Vec<bool>)
        ensures
            r@ == self@.screen,
    {
        &self.screen
    }

    /// The program counter.
    pub fn get_pc(&self) -> (r: u16)
        ensures
            r == self@.pc,
    {
        self.pc
    }

    /// Register VX.
    pub fn get_v(&self, x: usize) -> (r: u8)
        requires
            self.wf(),
            x < NUM_REGS,
        ensures
            r == self@.v[x as int],
    {
        self.v_reg[x]
    }

    /// The index register I.
    pub fn get_i(&self) -> (r: u16)
        ensures
            r == self@.i,
    {
        self.i_reg
    }

    /// The byte at memory address `addr`.
    pub fn get_ram(&self, addr: usize) -> (r: u8)
        requires
            self.wf(),
            addr < RAM_SIZE,
        ensures
            r == self@.ram[addr as int],
    {
        self.ram[addr]
    }

    /// The delay timer.
    pub fn get_dt(&self) -> (r: u8)
        ensures
            r == self@.dt,
    {
        self.dt
    }

    /// The sound timer.
    pub fn get_st(&self) -> (r: u8)
        ensures
            r == self@.st,
    {
        self.st
    }

    /// Whether sound should be active: the sound timer is nonzero.
    pub fn is_sound_active(&self) -> (r: bool)
        ensures
            r == (self@.st > 0),
    {
        self.st > 0
    }
}

impl Default for Emu {
    /// Same machine as `Emu::new` builds.
    fn default() -> (r: Emu)
        ensures
            r.wf(),
            r@ == init_state(),
    {
        Emu::new()
    }
}

/// Relies on `rand::random::<u8>`: one byte from the process-wide random
/// generator. Nothing is promised of its value.
#[verifier::external_body]
fn random_byte() -> u8 {
    rand::random()
}

impl Emu {
    /// XOR-draws the `n`-row sprite at memory[I..] anchored at (`vx`, `vy`)
    /// onto the display, and reports whether any lit cell was turned off.
    fn draw_sprite(&mut self, vx: u8, vy: u8, n: u8) -> (col: bool)
        requires
            old(self).wf(),
            n < 16,
            old(self)@.i + n <= RAM_SIZE,
        ensures
            final(self).wf(),
            final(self)@ == (EmuView {
                screen: draw_screen_spec(
                    old(self)@.screen,
                    old(self)@.ram,
                    old(self)@.i,
                    vx,
                    vy,
                    n,
                ),
                ..old(self)@
            }),
            col == draw_collision(old(self)@.screen, old(self)@.ram, old(self)@.i, vx, vy, n),
    {
        let ghost s0 = old(self)@;
        let i_base = self.i_reg as usize;
        let mut collision = false;
        let mut r: u8 = 0;
        while r < n
            invariant
                wf_state(s0),
                n < 16,
                r <= n,
                s0.i + n <= RAM_SIZE,
                i_base == s0.i,
                self@ == (EmuView { screen: self@.screen, ..s0 }),
                self@.screen.len() == s0.screen.len(),
                forall|k: int|
                    0 <= k < s0.screen.len() ==> self@.screen[k] == (if hit_upto(
                        s0.ram,
                        s0.i,
                        vx,
                        vy,
                        8 * (r as int),
                        k,
                    ) {
                        !s0.screen[k]
                    } else {
                        s0.screen[k]
                    }),
                collision == collision_upto(s0.screen, s0.ram, s0.i, vx, vy, 8 * (r as int)),
            decreases n - r,
        {
            let row_byte = self.ram[i_base + r as usize];
            let mut c: u8 = 0;
            while c < 8
                invariant
                    wf_state(s0),
                    n < 16,
                    r < n,
                    c <= 8,
                    s0.i + n <= RAM_SIZE,
                    i_base == s0.i,
                    row_byte == s0.ram[s0.i + r as int],
                    self@ == (EmuView { screen: self@.screen, ..s0 }),
                    self@.screen.len() == s0.screen.len(),
                    forall|k: int|
                        0 <= k < s0.screen.len() ==> self@.screen[k] == (if hit_upto(
                            s0.ram,
                            s0.i,
                            vx,
                            vy,
                            8 * (r as int) + c as int,
                            k,
                        ) {
                            !s0.screen[k]
                        } else {
                            s0.screen[k]
                        }),
                    collision == collision_upto(
                        s0.screen,
                        s0.ram,
                        s0.i,
                        vx,
                        vy,
                        8 * (r as int) + c as int,
                    ),
                decreases 8 - c,
            {
                let ghost p = 8 * (r as int) + c as int;
                proof {
                    lemma_fundamental_div_mod(p, 8);
                    assert(pos_row(p) == r as int);
                    assert(pos_bit(p) == c as int);
                }
                let bit = (row_byte >> c) & 1;
                if bit == 1 {
                    let sx = (vx as usize + r as usize) % SCREEN_WIDTH;
                    let sy = (vy as usize + c as usize) % SCREEN_HEIGHT;
                    let idx = SCREEN_WIDTH * sy + sx;
                    proof {
                        assert(sprite_bit(row_byte, c));
                        assert(sx as int == wrap_x(vx, r as int));
                        assert(sy as int == wrap_y(vy, c as int));
                        assert(idx as int == target_idx(vx, vy, r as int, c as int));
                        lemma_target_in_range(vx, vy, r as int, c as int);
                        assert(!hit_upto(s0.ram, s0.i, vx, vy, p, idx as int)) by {
                            if hit_upto(s0.ram, s0.i, vx, vy, p, idx as int) {
                                let q = choose|q: int|
                                    0 <= q < p && sprite_bit(
                                        s0.ram[s0.i + pos_row(q)],
                                        pos_bit(q) as u8,
                                    ) && target_idx(vx, vy, pos_row(q), pos_bit(q)) == idx as int;
                                lemma_fundamental_div_mod(q, 8);
                                assert(0 <= pos_row(q) < 16);
                                assert(0 <= pos_bit(q) < 8);
                                lemma_target_injective(
                                    vx,
                                    vy,
                                    pos_row(q),
                                    pos_bit(q),
                                    r as int,
                                    c as int,
                                );
                                assert(q == 8 * pos_row(q) + pos_bit(q));
                                assert(false);
                            }
                        };
                    }
                    let cur = self.screen[idx];
                    collision = collision || cur;
                    self.screen.set(idx, !cur);
                    proof {
                        assert(cur == s0.screen[idx as int]);
                        assert forall|k: int| 0 <= k < s0.screen.len() implies self@.screen[k] == (
                        if hit_upto(s0.ram, s0.i, vx, vy, p + 1, k) {
                            !s0.screen[k]
                        } else {
                            s0.screen[k]
                        }) by {
                            if k == idx as int {
                                assert(sprite_bit(s0.ram[s0.i + pos_row(p)], pos_bit(p) as u8));
                                assert(target_idx(vx, vy, pos_row(p), pos_bit(p)) == k);
                                assert(hit_upto(s0.ram, s0.i, vx, vy, p + 1, k));
                            } else {
                                if hit_upto(s0.ram, s0.i, vx, vy, p + 1, k) {
                                    let q = choose|q: int|
                                        0 <= q < p + 1 && sprite_bit(
                                            s0.ram[s0.i + pos_row(q)],
                                            pos_bit(q) as u8,
                                        ) && target_idx(vx, vy, pos_row(q), pos_bit(q)) == k;
                                    assert(q != p);
                                    assert(hit_upto(s0.ram, s0.i, vx, vy, p, k));
                                }
                                if hit_upto(s0.ram, s0.i, vx, vy, p, k) {
                                    lemma_hit_upto_mono(s0.ram, s0.i, vx, vy, p, p + 1, k);
                                }
                            }
                        };
                        assert(collision == collision_upto(
                            s0.screen,
                            s0.ram,
                            s0.i,
                            vx,
                            vy,
                            p + 1,
                        )) by {
                            if collision_upto(s0.screen, s0.ram, s0.i, vx, vy, p + 1) {
                                let q = choose|q: int|
                                    0 <= q < p + 1 && sprite_bit(
                                        s0.ram[s0.i + pos_row(q)],
                                        pos_bit(q) as u8,
                                    ) && s0.screen[target_idx(vx, vy, pos_row(q), pos_bit(q))];
                                if q != p {
                                    assert(collision_upto(s0.screen, s0.ram, s0.i, vx, vy, p));
                                }
                            }
                            if collision_upto(s0.screen, s0.ram, s0.i, vx, vy, p) {
                                lemma_collision_upto_mono(
                                    s0.screen,
                                    s0.ram,
                                    s0.i,
                                    vx,
                                    vy,
                                    p,
                                    p + 1,
                                );
                            }
                            if cur {
                                assert(sprite_bit(s0.ram[s0.i + pos_row(p)], pos_bit(p) as u8));
                                assert(s0.screen[target_idx(vx, vy, pos_row(p), pos_bit(p))]);
                                assert(collision_upto(s0.screen, s0.ram, s0.i, vx, vy, p + 1));
                            }
                        };
                    }
                } else {
                    proof {
                        assert(!sprite_bit(s0.ram[s0.i + pos_row(p)], pos_bit(p) as u8));
                        assert forall|k: int| 0 <= k < s0.screen.len() implies self@.screen[k] == (
                        if hit_upto(s0.ram, s0.i, vx, vy, p + 1, k) {
                            !s0.screen[k]
                        } else {
                            s0.screen[k]
                        }) by {
                            if hit_upto(s0.ram, s0.i, vx, vy, p + 1, k) {
                                let q = choose|q: int|
                                    0 <= q < p + 1 && sprite_bit(
                                        s0.ram[s0.i + pos_row(q)],
                                        pos_bit(q) as u8,
                                    ) && target_idx(vx, vy, pos_row(q), pos_bit(q)) == k;
                                assert(q != p);
                                assert(hit_upto(s0.ram, s0.i, vx, vy, p, k));
                            }
                            if hit_upto(s0.ram, s0.i, vx, vy, p, k) {
                                lemma_hit_upto_mono(s0.ram, s0.i, vx, vy, p, p + 1, k);
                            }
                        };
                        assert(collision == collision_upto(
                            s0.screen,
                            s0.ram,
                            s0.i,
                            vx,
                            vy,
                            p + 1,
                        )) by {
                            if collision_upto(s0.screen, s0.ram, s0.i, vx, vy, p + 1) {
                                let q = choose|q: int|
                                    0 <= q < p + 1 && sprite_bit(
                                        s0.ram[s0.i + pos_row(q)],
                                        pos_bit(q) as u8,
                                    ) && s0.screen[target_idx(vx, vy, pos_row(q), pos_bit(q))];
                                assert(q != p);
                                assert(collision_upto(s0.screen, s0.ram, s0.i, vx, vy, p));
                            }
                            if collision_upto(s0.screen, s0.ram, s0.i, vx, vy, p) {
                                lemma_collision_upto_mono(
                                    s0.screen,
                                    s0.ram,
                                    s0.i,
                                    vx,
                                    vy,
                                    p,
                                    p + 1,
                                );
                            }
                        };
                    }
                }
                c += 1;
            }
            r += 1;
        }
        proof {
            assert(self@.screen =~= draw_screen_spec(s0.screen, s0.ram, s0.i, vx, vy, n));
            assert(self@ =~= (EmuView {
                screen: draw_screen_spec(s0.screen, s0.ram, s0.i, vx, vy, n),
                ..s0
            }));
        }
        collision
    }

    /// Applies the semantic effect of one decoded instruction: advances the
    /// program counter past the instruction, then performs the effect that
    /// `apply_ok` states, with `rnd` as the byte the random source produced.
    /// The caller has already ruled the instruction's faults out.
    #[verifier::rlimit(100)]
    fn execute(&mut self, instr: Instr, rnd: u8)
        requires
            old(self).wf(),
            instr_wf(instr),
            old(self)@.pc + 2 <= RAM_SIZE,
            (fault_of(advanced(old(self)@), instr) is None),
        ensures
            final(self).wf(),
            final(self)@ == apply_ok(advanced(old(self)@), instr, rnd),
    {
        self.pc = self.pc + 2;
        let ghost s = advanced(old(self)@);
        match instr {
            Instr::Nop => {},
            Instr::Cls => {
                self.screen = cleared_flags(SCREEN_WIDTH * SCREEN_HEIGHT);
                proof {
                    assert(self@.screen =~= Seq::new(s.screen.len(), |j: int| false));
                }
            },
            Instr::Ret => {
                let addr = self.pop();
                self.pc = addr;
            },
            Instr::Jump(nnn) => {
                self.pc = nnn;
            },
            Instr::Call(nnn) => {
                let ret = self.pc;
                self.push(ret);
                self.pc = nnn;
            },
            Instr::SkipEqImm(x, nn) => {
                if self.v_reg[x as usize] == nn {
                    self.pc = self.pc + 2;
                }
            },
            Instr::SkipNeImm(x, nn) => {
                if self.v_reg[x as usize] != nn {
                    self.pc = self.pc + 2;
                }
            },
            Instr::SkipEqReg(x, y) => {
                if self.v_reg[x as usize] == self.v_reg[y as usize] {
                    self.pc = self.pc + 2;
                }
            },
            Instr::SetImm(x, nn) => {
                self.v_reg.set(x as usize, nn);
            },
            Instr::AddImm(x, nn) => {
                let vx = self.v_reg[x as usize];
                let sum: u16 = vx as u16 + nn as u16;
                self.v_reg.set(x as usize, (sum % 0x100) as u8);
            },
            Instr::Mov(x, y) => {
                let vy = self.v_reg[y as usize];
                self.v_reg.set(x as usize, vy);
            },
            Instr::Or(x, y) => {
                let vx = self.v_reg[x as usize];
                let vy = self.v_reg[y as usize];
                self.v_reg.set(x as usize, vx | vy);
            },
            Instr::And(x, y) => {
                let vx = self.v_reg[x as usize];
                let vy = self.v_reg[y as usize];
                self.v_reg.set(x as usize, vx & vy);
            },
            Instr::Xor(x, y) => {
                let vx = self.v_reg[x as usize];
                let vy = self.v_reg[y as usize];
                self.v_reg.set(x as usize, vx ^ vy);
            },
            Instr::AddReg(x, y) => {
                let vx = self.v_reg[x as usize];
                let vy = self.v_reg[y as usize];
                let sum: u16 = vx as u16 + vy as u16;
                let flag: u8 = if sum > 255 {
                    1
                } else {
                    0
                };
                self.v_reg.set(x as usize, (sum % 0x100) as u8);
                self.v_reg.set(15, flag);
            },
            Instr::SubReg(x, y) => {
                let vx = self.v_reg[x as usize];
                let vy = self.v_reg[y as usize];
                let nv: u8 = if vx >= vy {
                    vx - vy
                } else {
                    (vx as u16 + 0x100 - vy as u16) as u8
                };
                let flag: u8 = if vx >= vy {
                    1
                } else {
                    0
                };
                self.v_reg.set(x as usize, nv);
                self.v_reg.set(15, flag);
            },
            Instr::Shr(x) => {
                let vx = self.v_reg[x as usize];
                self.v_reg.set(x as usize, vx / 2);
                self.v_reg.set(15, vx % 2);
            },
            Instr::SubFrom(x, y) => {
                let vx = self.v_reg[x as usize];
                let vy = self.v_reg[y as usize];
                let nv: u8 = if vy >= vx {
                    vy - vx
                } else {
                    (vy as u16 + 0x100 - vx as u16) as u8
                };
                let flag: u8 = if vy >= vx {
                    1
                } else {
                    0
                };
                self.v_reg.set(x as usize, nv);
                self.v_reg.set(15, flag);
            },
            Instr::Shl(x) => {
                let vx = self.v_reg[x as usize];
                let doubled: u16 = vx as u16 * 2;
                self.v_reg.set(x as usize, (doubled % 0x100) as u8);
                self.v_reg.set(15, vx / 128);
            },
            Instr::SkipNeReg(x, y) => {
                if self.v_reg[x as usize] != self.v_reg[y as usize] {
                    self.pc = self.pc + 2;
                }
            },
            Instr::SetIndex(nnn) => {
                self.i_reg = nnn;
            },
            Instr::JumpV0(nnn) => {
                self.pc = self.v_reg[0] as u16 + nnn;
            },
            Instr::Rand(x, nn) => {
                self.v_reg.set(x as usize, rnd & nn);
            },
            Instr::Draw(x, y, n) => {
                let vx = self.v_reg[x as usize];
                let vy = self.v_reg[y as usize];
                let hit = self.draw_sprite(vx, vy, n);
                let flag: u8 = if hit {
                    1
                } else {
                    0
                };
                self.v_reg.set(15, flag);
            },
            Instr::SkipKey(x) => {
                let vx = self.v_reg[x as usize];
                if self.keys[vx as usize] {
                    self.pc = self.pc + 2;
                }
            },
            Instr::SkipNoKey(x) => {
                let vx = self.v_reg[x as usize];
                if !self.keys[vx as usize] {
                    self.pc = self.pc + 2;
                }
            },
            Instr::GetDelay(x) => {
                let dt = self.dt;
                self.v_reg.set(x as usize, dt);
            },
            Instr::WaitKey(x) => {
                let mut j: usize = 0;
                while j < NUM_KEYS
                    invariant
                        old(self).wf(),
                        instr == Instr::WaitKey(x),
                        instr_wf(instr),
                        j <= NUM_KEYS,
                        self@ == advanced(old(self)@),
                        first_key_from(self@.keys, 0) == first_key_from(self@.keys, j as int),
                    decreases NUM_KEYS - j,
                {
                    if self.keys[j] {
                        proof {
                            assert(first_key_from(self@.keys, j as int) == Some(j as u8));
                            assert(first_key_from(advanced(old(self)@).keys, 0) == Some(j as u8));
                        }
                        self.v_reg.set(x as usize, j as u8);
                        proof {
                            assert(self@ =~= apply_ok(advanced(old(self)@), instr, rnd));
                        }
                        return;
                    }
                    j += 1;
                }
                self.pc = self.pc - 2;
            },
            Instr::SetDelay(x) => {
                self.dt = self.v_reg[x as usize];
            },
            Instr::SetSound(x) => {
                self.st = self.v_reg[x as usize];
            },
            Instr::AddIndex(x) => {
                let vx = self.v_reg[x as usize];
                let sum: u32 = self.i_reg as u32 + vx as u32;
                self.i_reg = (sum % 0x10000) as u16;
            },
            Instr::Glyph(x) => {
                let vx = self.v_reg[x as usize];
                self.i_reg = vx as u16 * GLYPH_BYTES;
            },
            Instr::Bcd(x) => {
                let vx = self.v_reg[x as usize];
                let base = self.i_reg as usize;
                self.ram.set(base, vx / 100);
                self.ram.set(base + 1, (vx / 10) % 10);
                self.ram.set(base + 2, vx % 10);
            },
            Instr::StoreRegs(x) => {
                let base = self.i_reg as usize;
                let mut k: usize = 0;
                while k < x as usize + 1
                    invariant
                        old(self).wf(),
                        x < 16,
                        k <= x as usize + 1,
                        base == s.i,
                        s == advanced(old(self)@),
                        s.i + x + 1 <= RAM_SIZE,
                        self@ == (EmuView { ram: self@.ram, ..s }),
                        self@.ram.len() == RAM_SIZE,
                        forall|j: int| base <= j < base + k ==> self@.ram[j] == s.v[j - base],
                        forall|j: int|
                            0 <= j < RAM_SIZE && !(base <= j < base + k) ==> self@.ram[j]
                                == s.ram[j],
                    decreases x as usize + 1 - k,
                {
                    let b = self.v_reg[k];
                    self.ram.set(base + k, b);
                    k += 1;
                }
                proof {
                    assert(self@.ram =~= apply_ok(s, instr, rnd).ram);
                }
            },
            Instr::LoadRegs(x) => {
                let base = self.i_reg as usize;
                let mut k: usize = 0;
                while k < x as usize + 1
                    invariant
                        old(self).wf(),
                        x < 16,
                        k <= x as usize + 1,
                        base == s.i,
                        s == advanced(old(self)@),
                        s.i + x + 1 <= RAM_SIZE,
                        self@ == (EmuView { v: self@.v, ..s }),
                        self@.v.len() == NUM_REGS,
                        forall|j: int| 0 <= j < k ==> self@.v[j] == s.ram[base + j],
                        forall|j: int| k <= j < NUM_REGS ==> self@.v[j] == s.v[j],
                    decreases x as usize + 1 - k,
                {
                    let b = self.ram[base + k];
                    self.v_reg.set(k, b);
                    k += 1;
                }
                proof {
                    assert(self@.v =~= apply_ok(s, instr, rnd).v);
                }
            },
        }
    }

    /// One fetch-decode-execute cycle. On success the state steps exactly
    /// as `step_spec` says for the byte the random source produced; on a
    /// fault the error is reported — the same one for every possible random
    /// byte — and the state is left entirely unchanged.
    pub fn tick(&mut self) -> (r: Result<(), Fault>)
        requires
            old(self).wf(),
        ensures
            final(self).wf(),
            (r matches Ok(()) ==> exists|rnd: u8|
                step_spec(old(self)@, rnd) == Ok::<EmuView, Fault>(final(self)@)),
            (r matches Err(f) ==> final(self)@ == old(self)@ && forall|rnd: u8|
                step_spec(old(self)@, rnd) == Err::<EmuView, Fault>(f)),
    {
        let pc = self.pc;
        if pc as usize + 1 >= RAM_SIZE {
            return Err(Fault::PcOutOfBounds);
        }
        let hi = self.ram[pc as usize];
        let lo = self.ram[pc as usize + 1];
        let op: u16 = (hi as u16) * 0x100 + (lo as u16);
        proof {
            assert(op == word_at(self@));
        }
        let instr = match decode(op) {
            None => {
                return Err(Fault::UnknownOpcode(op));
            },
            Some(i) => i,
        };
        match instr {
            Instr::Ret => {
                if self.sp == 0 {
                    return Err(Fault::StackUnderflow);
                }
            },
            Instr::Call(_) => {
                if self.sp as usize >= STACK_SIZE {
                    return Err(Fault::StackOverflow);
                }
            },
            Instr::Draw(_, _, n) => {
                if self.i_reg as usize + n as usize > RAM_SIZE {
                    return Err(Fault::MemoryOutOfBounds);
                }
            },
            Instr::SkipKey(x) => {
                if self.v_reg[x as usize] as usize >= NUM_KEYS {
                    return Err(Fault::KeyOutOfRange);
                }
            },
            Instr::SkipNoKey(x) => {
                if self.v_reg[x as usize] as usize >= NUM_KEYS {
                    return Err(Fault::KeyOutOfRange);
                }
            },
            Instr::Bcd(_) => {
                if self.i_reg as usize + 3 > RAM_SIZE {
                    return Err(Fault::MemoryOutOfBounds);
                }
            },
            Instr::StoreRegs(x) => {
                if self.i_reg as usize + x as usize + 1 > RAM_SIZE {
                    return Err(Fault::MemoryOutOfBounds);
                }
            },
            Instr::LoadRegs(x) => {
                if self.i_reg as usize + x as usize + 1 > RAM_SIZE {
                    return Err(Fault::MemoryOutOfBounds);
                }
            },
            _ => {},
        }
        let rnd: u8 = match instr {
            Instr::Rand(_, _) => random_byte(),
            _ => 0,
        };
        self.execute(instr, rnd);
        proof {
            assert(step_spec(old(self)@, rnd) == Ok::<EmuView, Fault>(self@));
        }
        Ok(())
    }
}

} // verus!
