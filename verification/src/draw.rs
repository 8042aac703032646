//! The XOR sprite-compositing rule of the draw instruction, stated cell by
//! cell over the display model, with the facts the drawing loop and the
//! double-draw law rest on.
//!
//! A sprite is `n` consecutive memory bytes (one row each, 8 bits wide).
//! Bit positions are walked row-major; position `q` means row `q / 8`,
//! bit `q % 8`. A set bit toggles the display cell it lands on; the
//! collision flag reports whether any toggled cell was lit before the draw.

use vstd::prelude::*;

use crate::emu::SCREEN_HEIGHT;
use crate::emu::SCREEN_WIDTH;

verus! {

use vstd::arithmetic::div_mod::lemma_fundamental_div_mod;

/// Whether bit `c` (counting from the least significant end) of a sprite
/// row byte is set.
pub open spec fn sprite_bit(b: u8, c: u8) -> bool {
    (b >> c) & 1 == 1
}

/// The sprite row a walk position belongs to.
pub open spec fn pos_row(q: int) -> int {
    q / 8
}

/// The bit position within the row a walk position belongs to.
pub open spec fn pos_bit(q: int) -> int {
    q % 8
}

/// The first display coordinate a sprite bit lands on: the anchor VX
/// offset by the sprite row, wrapping at the display width.
pub open spec fn wrap_x(vx: u8, r: int) -> int {
    (vx + r) % (SCREEN_WIDTH as int)
}

/// The second display coordinate: the anchor VY offset by the bit
/// position within the row, wrapping at the display height.
pub open spec fn wrap_y(vy: u8, c: int) -> int {
    (vy + c) % (SCREEN_HEIGHT as int)
}

/// The row-major display cell that sprite row `r`, bit position `c`,
/// anchored at (VX, VY), lands on.
pub open spec fn target_idx(vx: u8, vy: u8, r: int, c: int) -> int {
    (SCREEN_WIDTH as int) * wrap_y(vy, c) + wrap_x(vx, r)
}

/// Whether a set sprite bit at some walk position before `p` lands on
/// display cell `idx`.
pub open spec fn hit_upto(ram: Seq<u8>, i: u16, vx: u8, vy: u8, p: int, idx: int) -> bool {
    exists|q: int|
        0 <= q < p && sprite_bit(ram[i + pos_row(q)], pos_bit(q) as u8) && target_idx(
            vx,
            vy,
            pos_row(q),
            pos_bit(q),
        ) == idx
}

/// Whether some set bit of the whole `n`-row sprite at memory[i..] lands
/// on display cell `idx`.
pub open spec fn draw_hit(ram: Seq<u8>, i: u16, vx: u8, vy: u8, n: u8, idx: int) -> bool {
    hit_upto(ram, i, vx, vy, 8 * n, idx)
}

/// Whether a set sprite bit at some walk position before `p` lands on a
/// cell that is lit in `screen`: the partial collision flag.
pub open spec fn collision_upto(
    screen: Seq<bool>,
    ram: Seq<u8>,
    i: u16,
    vx: u8,
    vy: u8,
    p: int,
) -> bool {
    exists|q: int|
        0 <= q < p && sprite_bit(ram[i + pos_row(q)], pos_bit(q) as u8) && screen[target_idx(
            vx,
            vy,
            pos_row(q),
            pos_bit(q),
        )]
}

/// Whether drawing the whole sprite turns some lit cell off.
pub open spec fn draw_collision(
    screen: Seq<bool>,
    ram: Seq<u8>,
    i: u16,
    vx: u8,
    vy: u8,
    n: u8,
) -> bool {
    collision_upto(screen, ram, i, vx, vy, 8 * n)
}

/// The display after the sprite is drawn: every cell some set sprite bit
/// lands on is toggled, every other cell keeps its value. Distinct sprite
/// bits land on distinct cells, so no cell is toggled twice.
pub open spec fn draw_screen_spec(
    screen: Seq<bool>,
    ram: Seq<u8>,
    i: u16,
    vx: u8,
    vy: u8,
    n: u8,
) -> Seq<bool> {
    Seq::new(
        screen.len(),
        |idx: int|
            if draw_hit(ram, i, vx, vy, n, idx) {
                !screen[idx]
            } else {
                screen[idx]
            },
    )
}

/// Every sprite bit lands inside the display buffer.
pub proof fn lemma_target_in_range(vx: u8, vy: u8, r: int, c: int)
    requires
        0 <= r,
        0 <= c,
    ensures
        0 <= target_idx(vx, vy, r, c) < SCREEN_WIDTH * SCREEN_HEIGHT,
{
    assert(0 <= wrap_x(vx, r) < 64);
    assert(0 <= wrap_y(vy, c) < 32);
}

/// Two walk positions of a sprite of at most 16 rows land on the same
/// display cell only if they are the same position: the row offsets stay
/// under the display width and the bit offsets under the display height,
/// so neither wrap can make distinct offsets coincide.
pub proof fn lemma_target_injective(vx: u8, vy: u8, r1: int, c1: int, r2: int, c2: int)
    requires
        0 <= r1 < 16,
        0 <= c1 < 8,
        0 <= r2 < 16,
        0 <= c2 < 8,
        target_idx(vx, vy, r1, c1) == target_idx(vx, vy, r2, c2),
    ensures
        r1 == r2,
        c1 == c2,
{
    assert(0 <= wrap_x(vx, r1) < 64);
    assert(0 <= wrap_x(vx, r2) < 64);
    assert(0 <= wrap_y(vy, c1) < 32);
    assert(0 <= wrap_y(vy, c2) < 32);
    assert(wrap_x(vx, r1) == wrap_x(vx, r2) && wrap_y(vy, c1) == wrap_y(vy, c2));

    let a = vx + r1;
    let b = vx + r2;
    lemma_fundamental_div_mod(a, 64);
    lemma_fundamental_div_mod(b, 64);
    assert(a - b == 64 * (a / 64) - 64 * (b / 64));
    assert(-16 < a - b < 16);
    assert(a == b);

    let e = vy + c1;
    let f = vy + c2;
    lemma_fundamental_div_mod(e, 32);
    lemma_fundamental_div_mod(f, 32);
    assert(e - f == 32 * (e / 32) - 32 * (f / 32));
    assert(-8 < e - f < 8);
    assert(e == f);
}

/// A hit seen among the first `p1` walk positions is still a hit among
/// any longer prefix.
pub proof fn lemma_hit_upto_mono(
    ram: Seq<u8>,
    i: u16,
    vx: u8,
    vy: u8,
    p1: int,
    p2: int,
    idx: int,
)
    requires
        p1 <= p2,
        hit_upto(ram, i, vx, vy, p1, idx),
    ensures
        hit_upto(ram, i, vx, vy, p2, idx),
{
    let q = choose|q: int|
        0 <= q < p1 && sprite_bit(ram[i + pos_row(q)], pos_bit(q) as u8) && target_idx(
            vx,
            vy,
            pos_row(q),
            pos_bit(q),
        ) == idx;
    assert(0 <= q < p2 && sprite_bit(ram[i + pos_row(q)], pos_bit(q) as u8) && target_idx(
        vx,
        vy,
        pos_row(q),
        pos_bit(q),
    ) == idx);
}

/// A collision seen among the first `p1` walk positions is still one
/// among any longer prefix.
pub proof fn lemma_collision_upto_mono(
    screen: Seq<bool>,
    ram: Seq<u8>,
    i: u16,
    vx: u8,
    vy: u8,
    p1: int,
    p2: int,
)
    requires
        p1 <= p2,
        collision_upto(screen, ram, i, vx, vy, p1),
    ensures
        collision_upto(screen, ram, i, vx, vy, p2),
{
    let q = choose|q: int|
        0 <= q < p1 && sprite_bit(ram[i + pos_row(q)], pos_bit(q) as u8) && screen[target_idx(
            vx,
            vy,
            pos_row(q),
            pos_bit(q),
        )];
    assert(0 <= q < p2 && sprite_bit(ram[i + pos_row(q)], pos_bit(q) as u8) && screen[target_idx(
        vx,
        vy,
        pos_row(q),
        pos_bit(q),
    )]);
}

/// Drawing the same sprite at the same anchor twice in succession gives
/// back the display it started from: every cell the first draw toggled —
/// in particular every cell it lit — is toggled back by the second.
pub proof fn lemma_draw_twice_restores(
    screen: Seq<bool>,
    ram: Seq<u8>,
    i: u16,
    vx: u8,
    vy: u8,
    n: u8,
)
    ensures
        draw_screen_spec(draw_screen_spec(screen, ram, i, vx, vy, n), ram, i, vx, vy, n)
            == screen,
{
    let s1 = draw_screen_spec(screen, ram, i, vx, vy, n);
    let s2 = draw_screen_spec(s1, ram, i, vx, vy, n);
    assert(s2 =~= screen);
}

/// A second identical draw reports a collision exactly when some set
/// sprite bit lands on a cell that was unlit before the first draw: the
/// first draw lit that cell, and the second turns it off again.
pub proof fn lemma_second_draw_collision(
    screen: Seq<bool>,
    ram: Seq<u8>,
    i: u16,
    vx: u8,
    vy: u8,
    n: u8,
)
    requires
        screen.len() == SCREEN_WIDTH * SCREEN_HEIGHT,
    ensures
        draw_collision(draw_screen_spec(screen, ram, i, vx, vy, n), ram, i, vx, vy, n)
            <==> (exists|q: int|
            0 <= q < 8 * n && sprite_bit(ram[i + pos_row(q)], pos_bit(q) as u8)
                && !screen[target_idx(vx, vy, pos_row(q), pos_bit(q))]),
{
    let s1 = draw_screen_spec(screen, ram, i, vx, vy, n);
    if draw_collision(s1, ram, i, vx, vy, n) {
        let q = choose|q: int|
            0 <= q < 8 * n && sprite_bit(ram[i + pos_row(q)], pos_bit(q) as u8) && s1[target_idx(
                vx,
                vy,
                pos_row(q),
                pos_bit(q),
            )];
        let idx = target_idx(vx, vy, pos_row(q), pos_bit(q));
        lemma_target_in_range(vx, vy, pos_row(q), pos_bit(q));
        assert(hit_upto(ram, i, vx, vy, 8 * n, idx));
        assert(s1[idx] == !screen[idx]);
        assert(!screen[idx]);
    }
    if exists|q: int|
        0 <= q < 8 * n && sprite_bit(ram[i + pos_row(q)], pos_bit(q) as u8) && !screen[target_idx(
            vx,
            vy,
            pos_row(q),
            pos_bit(q),
        )] {
        let q = choose|q: int|
            0 <= q < 8 * n && sprite_bit(ram[i + pos_row(q)], pos_bit(q) as u8)
                && !screen[target_idx(vx, vy, pos_row(q), pos_bit(q))];
        let idx = target_idx(vx, vy, pos_row(q), pos_bit(q));
        lemma_target_in_range(vx, vy, pos_row(q), pos_bit(q));
        assert(hit_upto(ram, i, vx, vy, 8 * n, idx));
        assert(s1[idx]);
        assert(collision_upto(s1, ram, i, vx, vy, 8 * n));
    }
}

} // verus!
