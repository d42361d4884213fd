//! Laws of the machine, proved against the step relation: the flag
//! conventions of the arithmetic instructions, the jump rule, and the
//! round trip of a register block through memory.

use vstd::prelude::*;

use crate::cpu::Cpu;
use crate::semantics::cell;
use crate::semantics::draw_row;
use crate::semantics::draw_sprite;
use crate::semantics::put_pixel;
use crate::semantics::sprite_bit;
use crate::semantics::sprite_row;
use crate::semantics::family;
use crate::semantics::lemma_word_fields;
use crate::semantics::nib;
use crate::semantics::nnn;
use crate::semantics::sem_load;
use crate::semantics::sem_store;
use crate::semantics::spec_fetch;
use crate::semantics::step_ok;
use crate::semantics::xr;
use crate::semantics::yr;

verus! {

/// Add-with-carry: for any two 8-bit register values a and b, the flag
/// register is set to 1 exactly when `a + b > 255`, and the destination
/// afterwards holds `(a + b) mod 256`.  The law excludes the flag
/// register itself as an operand: the flag write precedes the add, so
/// with X or Y = 0xF the add reads the freshly written flag instead of
/// the original operand.
pub proof fn lemma_add_with_carry(pre: Cpu, rnd: u8, post: Cpu)
    requires
        step_ok(pre, rnd, post),
        family(spec_fetch(pre)) == 0x8,
        nib(spec_fetch(pre)) == 0x4,
        xr(spec_fetch(pre)) != 15,
        yr(spec_fetch(pre)) != 15,
    ensures
        post.v@[15] == (if pre.v@[xr(spec_fetch(pre))] + pre.v@[yr(spec_fetch(pre))] > 255 {
            1u8
        } else {
            0u8
        }),
        post.v@[xr(spec_fetch(pre))] == (pre.v@[xr(spec_fetch(pre))] + pre.v@[yr(
            spec_fetch(pre),
        )]) % 256,
{
    let w = spec_fetch(pre);
    lemma_word_fields(w);
    let a = pre.v@[xr(w)];
    let b = pre.v@[yr(w)];
    assert(a + b > 255 ==> (a + b) % 256 == a + b - 256);
    assert(a + b <= 255 ==> (a + b) % 256 == a + b);
}

/// Subtract: for any two 8-bit register values a (destination) and b
/// (source), the flag register is set to 0 exactly when a borrow occurs
/// (`b > a`) — the architecture's inverted polarity — and the
/// destination afterwards holds `(a - b) mod 256`.  The flag register
/// itself is excluded as an operand for the same reason as in the add
/// law.
pub proof fn lemma_sub_with_borrow(pre: Cpu, rnd: u8, post: Cpu)
    requires
        step_ok(pre, rnd, post),
        family(spec_fetch(pre)) == 0x8,
        nib(spec_fetch(pre)) == 0x5,
        xr(spec_fetch(pre)) != 15,
        yr(spec_fetch(pre)) != 15,
    ensures
        post.v@[15] == 0 <==> pre.v@[yr(spec_fetch(pre))] > pre.v@[xr(spec_fetch(pre))],
        post.v@[15] == 0 || post.v@[15] == 1,
        post.v@[xr(spec_fetch(pre))] == (pre.v@[xr(spec_fetch(pre))] - pre.v@[yr(
            spec_fetch(pre),
        )]) % 256,
{
    let w = spec_fetch(pre);
    lemma_word_fields(w);
    let a = pre.v@[xr(w)];
    let b = pre.v@[yr(w)];
    assert(a - b < 0 ==> (a - b) % 256 == a - b + 256);
    assert(a - b >= 0 ==> (a - b) % 256 == a - b);
}

/// A jump sets the program counter to exactly the instruction's 12-bit
/// address, with no further advancement applied that step.
pub proof fn lemma_jump_sets_pc(pre: Cpu, rnd: u8, post: Cpu)
    requires
        step_ok(pre, rnd, post),
        family(spec_fetch(pre)) == 0x1,
    ensures
        post.pc == nnn(spec_fetch(pre)),
{
}

/// Block-store then block-load of registers 0..=X through the same
/// starting address-register value round-trips every register
/// unchanged, and each operation leaves the address register at its
/// own start plus X + 1 — so the two displacements together amount to
/// 2 * (X + 1).
pub proof fn lemma_store_load_round_trip(pre1: Cpu, post1: Cpu, pre2: Cpu, post2: Cpu)
    requires
        pre1.wf(),
        pre2.wf(),
        sem_store(pre1, post1),
        sem_load(pre2, post2),
        xr(spec_fetch(pre2)) == xr(spec_fetch(pre1)),
        pre2.memory@ == post1.memory@,
        pre2.ir == pre1.ir,
        pre2.v@ == post1.v@,
        pre1.ir as int + xr(spec_fetch(pre1)) <= 4095,
    ensures
        post2.v@ == pre1.v@,
        post1.ir == pre1.ir + xr(spec_fetch(pre1)) + 1,
        post2.ir == pre2.ir + xr(spec_fetch(pre1)) + 1,
        (post1.ir - pre1.ir) + (post2.ir - pre2.ir) == 2 * (xr(spec_fetch(pre1)) + 1),
{
    let x = xr(spec_fetch(pre1));
    assert forall|i: int| 0 <= i < 16 implies post2.v@[i] == pre1.v@[i] by {
        if i <= x {
            assert(post2.v@[i] == pre2.memory@[pre2.ir + i]);
            assert(post1.memory@[pre1.ir + i] == pre1.v@[i]);
        } else {
            assert(post2.v@[i] == pre2.v@[i]);
        }
    }
    assert(post2.v@ =~= pre1.v@);
}

/// Distinct sprite bits land on distinct display cells: columns are at
/// most 7 apart while rows are 64 cells apart.
pub proof fn lemma_cell_injective(x: int, y: int, r1: int, c1: int, r2: int, c2: int)
    requires
        0 <= c1 < 8,
        0 <= c2 < 8,
        cell(x, y, r1, c1) == cell(x, y, r2, c2),
    ensures
        r1 == r2,
        c1 == c2,
{
}

/// XOR with 1 is an involution on bytes.
pub proof fn lemma_xor_involution(b: u8)
    ensures
        b ^ 1 ^ 1 == b,
{
    assert(b ^ 1 ^ 1 == b) by (bit_vector);
}

/// Whether any bit among the columns `c0..8` of one sprite row lands
/// on display cell `pos`.
pub open spec fn row_touches(row: u8, x: int, base: int, c0: int, pos: int) -> bool {
    exists|c: int|
        c0 <= c < 8 && #[trigger] sprite_bit(row, c) && pos == x + c + base && pos < 2048
}

/// Whether any bit of the sprite's rows `r0..n` lands on display cell
/// `pos`.
pub open spec fn sprite_touches(
    mem: Seq<u8>,
    ir: int,
    x: int,
    y: int,
    n: int,
    r0: int,
    pos: int,
) -> bool {
    exists|r: int, c: int|
        r0 <= r < n && 0 <= c < 8 && #[trigger] sprite_bit(sprite_row(mem, ir, r), c) && pos
            == cell(x, y, r, c) && pos < 2048
}

/// What drawing the columns `c0..8` of one sprite row does to the
/// display: each on-screen set bit flips its cell, every other cell is
/// untouched, and a collision is reported exactly when some on-screen
/// set bit lands on a cell that held 1.
pub proof fn lemma_row_effect(g: Seq<u8>, vf: bool, row: u8, x: int, base: int, c0: int)
    requires
        g.len() == 2048,
        0 <= x,
        0 <= base,
        0 <= c0 <= 8,
    ensures
        draw_row(g, vf, row, x, base, c0).0.len() == 2048,
        forall|c: int|
            c0 <= c < 8 && #[trigger] sprite_bit(row, c) && x + c + base < 2048 ==> draw_row(
                g,
                vf,
                row,
                x,
                base,
                c0,
            ).0[x + c + base] == g[x + c + base] ^ 1,
        forall|pos: int|
            0 <= pos < 2048 && !row_touches(row, x, base, c0, pos) ==> draw_row(
                g,
                vf,
                row,
                x,
                base,
                c0,
            ).0[pos] == g[pos],
        draw_row(g, vf, row, x, base, c0).1 == (vf || exists|c: int|
            c0 <= c < 8 && #[trigger] sprite_bit(row, c) && x + c + base < 2048 && g[x + c + base]
                == 1),
    decreases 8 - c0,
{
    let res = draw_row(g, vf, row, x, base, c0);
    if c0 == 8 {
        assert forall|pos: int| !#[trigger] row_touches(row, x, base, c0, pos) by {
            if row_touches(row, x, base, c0, pos) {
                let c = choose|c: int|
                    c0 <= c < 8 && #[trigger] sprite_bit(row, c) && pos == x + c + base && pos
                        < 2048;
                assert(false);
            }
        }
        assert(res == (g, vf));
    } else {
        let pos0 = x + c0 + base;
        let on = sprite_bit(row, c0);
        let p = put_pixel(g, vf, pos0, on);
        assert(res == draw_row(p.0, p.1, row, x, base, c0 + 1));
        lemma_row_effect(p.0, p.1, row, x, base, c0 + 1);
        assert forall|pos: int| #[trigger] row_touches(row, x, base, c0 + 1, pos) implies (
        row_touches(row, x, base, c0, pos) && pos != pos0) by {
            let c = choose|c: int|
                c0 + 1 <= c < 8 && #[trigger] sprite_bit(row, c) && pos == x + c + base && pos
                    < 2048;
            assert(c0 <= c < 8 && sprite_bit(row, c) && pos == x + c + base && pos < 2048);
        }
        if on && pos0 < 2048 {
            assert(row_touches(row, x, base, c0, pos0));
            assert(!row_touches(row, x, base, c0 + 1, pos0));
            assert(p.0 == g.update(pos0, g[pos0] ^ 1));
            assert forall|c: int|
                c0 <= c < 8 && #[trigger] sprite_bit(row, c) && x + c + base < 2048 implies res.0[x
                + c + base] == g[x + c + base] ^ 1 by {
                let pos = x + c + base;
                if c == c0 {
                    assert(res.0[pos0] == p.0[pos0]);
                } else {
                    assert(row_touches(row, x, base, c0 + 1, pos));
                    assert(pos != pos0);
                    assert(res.0[pos] == p.0[pos] ^ 1);
                    assert(p.0[pos] == g[pos]);
                }
            }
            assert forall|pos: int|
                0 <= pos < 2048 && !row_touches(row, x, base, c0, pos) implies res.0[pos]
                == g[pos] by {
                assert(!row_touches(row, x, base, c0 + 1, pos)) by {
                    if row_touches(row, x, base, c0 + 1, pos) {
                        assert(row_touches(row, x, base, c0, pos));
                    }
                }
                assert(pos != pos0);
                assert(res.0[pos] == p.0[pos]);
            }
            assert(res.1 == (vf || exists|c: int|
                c0 <= c < 8 && #[trigger] sprite_bit(row, c) && x + c + base < 2048 && g[x + c
                    + base] == 1)) by {
                if res.1 {
                    if p.1 {
                        if !vf {
                            assert(g[pos0] == 1);
                            assert(sprite_bit(row, c0) && x + c0 + base < 2048 && g[x + c0 + base]
                                == 1);
                        }
                    } else {
                        let c = choose|c: int|
                            c0 + 1 <= c < 8 && #[trigger] sprite_bit(row, c) && x + c + base < 2048
                                && p.0[x + c + base] == 1;
                        assert(row_touches(row, x, base, c0 + 1, x + c + base));
                        assert(x + c + base != pos0);
                        assert(g[x + c + base] == 1);
                    }
                }
                if vf {
                    assert(p.1);
                    assert(res.1);
                }
                if exists|c: int|
                    c0 <= c < 8 && #[trigger] sprite_bit(row, c) && x + c + base < 2048 && g[x + c
                        + base] == 1 {
                    let c = choose|c: int|
                        c0 <= c < 8 && #[trigger] sprite_bit(row, c) && x + c + base < 2048 && g[x
                            + c + base] == 1;
                    if c == c0 {
                        assert(p.1);
                        assert(res.1);
                    } else {
                        assert(x + c + base != pos0);
                        assert(p.0[x + c + base] == 1);
                        assert(res.1);
                    }
                }
            }
        } else {
            assert(p == (g, vf));
            assert forall|c: int|
                c0 <= c < 8 && #[trigger] sprite_bit(row, c) && x + c + base < 2048 implies res.0[x
                + c + base] == g[x + c + base] ^ 1 by {
                assert(c != c0);
                assert(row_touches(row, x, base, c0 + 1, x + c + base));
            }
            assert forall|pos: int|
                0 <= pos < 2048 && !row_touches(row, x, base, c0, pos) implies res.0[pos]
                == g[pos] by {
                assert(!row_touches(row, x, base, c0 + 1, pos)) by {
                    if row_touches(row, x, base, c0 + 1, pos) {
                        assert(row_touches(row, x, base, c0, pos));
                    }
                }
            }
            assert(res.1 == (vf || exists|c: int|
                c0 <= c < 8 && #[trigger] sprite_bit(row, c) && x + c + base < 2048 && g[x + c
                    + base] == 1)) by {
                if res.1 && !vf {
                    let c = choose|c: int|
                        c0 + 1 <= c < 8 && #[trigger] sprite_bit(row, c) && x + c + base < 2048
                            && g[x + c + base] == 1;
                    assert(c0 <= c < 8 && sprite_bit(row, c) && x + c + base < 2048 && g[x + c
                        + base] == 1);
                }
                if exists|c: int|
                    c0 <= c < 8 && #[trigger] sprite_bit(row, c) && x + c + base < 2048 && g[x + c
                        + base] == 1 {
                    let c = choose|c: int|
                        c0 <= c < 8 && #[trigger] sprite_bit(row, c) && x + c + base < 2048 && g[x
                            + c + base] == 1;
                    assert(c != c0);
                    assert(c0 + 1 <= c < 8 && sprite_bit(row, c) && x + c + base < 2048 && g[x + c
                        + base] == 1);
                    assert(res.1);
                }
            }
        }
    }
}

/// What drawing the rows `r0..n` of a sprite does to the display: each
/// on-screen set bit flips its cell exactly once, every other cell is
/// untouched, and a collision is reported exactly when some on-screen
/// set bit lands on a cell that held 1 before the draw began.
pub proof fn lemma_sprite_effect(
    g: Seq<u8>,
    vf: bool,
    mem: Seq<u8>,
    ir: int,
    x: int,
    y: int,
    n: int,
    r0: int,
)
    requires
        g.len() == 2048,
        0 <= x,
        0 <= y,
        0 <= r0,
    ensures
        draw_sprite(g, vf, mem, ir, x, y, n, r0).0.len() == 2048,
        forall|r: int, c: int|
            r0 <= r < n && 0 <= c < 8 && #[trigger] sprite_bit(sprite_row(mem, ir, r), c) && cell(
                x,
                y,
                r,
                c,
            ) < 2048 ==> draw_sprite(g, vf, mem, ir, x, y, n, r0).0[cell(x, y, r, c)] == g[cell(
                x,
                y,
                r,
                c,
            )] ^ 1,
        forall|pos: int|
            0 <= pos < 2048 && !sprite_touches(mem, ir, x, y, n, r0, pos) ==> draw_sprite(
                g,
                vf,
                mem,
                ir,
                x,
                y,
                n,
                r0,
            ).0[pos] == g[pos],
        draw_sprite(g, vf, mem, ir, x, y, n, r0).1 == (vf || exists|r: int, c: int|
            r0 <= r < n && 0 <= c < 8 && #[trigger] sprite_bit(sprite_row(mem, ir, r), c) && cell(
                x,
                y,
                r,
                c,
            ) < 2048 && g[cell(x, y, r, c)] == 1),
    decreases n - r0,
{
    let res = draw_sprite(g, vf, mem, ir, x, y, n, r0);
    if r0 >= n {
        assert forall|pos: int| !#[trigger] sprite_touches(mem, ir, x, y, n, r0, pos) by {
            if sprite_touches(mem, ir, x, y, n, r0, pos) {
                let (r, c) = choose|r: int, c: int|
                    r0 <= r < n && 0 <= c < 8 && #[trigger] sprite_bit(sprite_row(mem, ir, r), c)
                        && pos == cell(x, y, r, c) && pos < 2048;
                assert(false);
            }
        }
        assert(res == (g, vf));
        assert(res.1 == (vf || exists|r: int, c: int|
            r0 <= r < n && 0 <= c < 8 && #[trigger] sprite_bit(sprite_row(mem, ir, r), c) && cell(
                x,
                y,
                r,
                c,
            ) < 2048 && g[cell(x, y, r, c)] == 1)) by {
            if exists|r: int, c: int|
                r0 <= r < n && 0 <= c < 8 && #[trigger] sprite_bit(sprite_row(mem, ir, r), c)
                    && cell(x, y, r, c) < 2048 && g[cell(x, y, r, c)] == 1 {
                let (r, c) = choose|r: int, c: int|
                    r0 <= r < n && 0 <= c < 8 && #[trigger] sprite_bit(sprite_row(mem, ir, r), c)
                        && cell(x, y, r, c) < 2048 && g[cell(x, y, r, c)] == 1;
                assert(false);
            }
        }
    } else {
        let row = sprite_row(mem, ir, r0);
        let base = 64 * (y + r0);
        let p = draw_row(g, vf, row, x, base, 0);
        assert(res == draw_sprite(p.0, p.1, mem, ir, x, y, n, r0 + 1));
        lemma_row_effect(g, vf, row, x, base, 0);
        lemma_sprite_effect(p.0, p.1, mem, ir, x, y, n, r0 + 1);
        // a cell of this row is not touched again by the later rows
        assert forall|pos: int| #[trigger] row_touches(row, x, base, 0, pos) implies
            !sprite_touches(mem, ir, x, y, n, r0 + 1, pos) by {
            let c = choose|c: int|
                0 <= c < 8 && #[trigger] sprite_bit(row, c) && pos == x + c + base && pos < 2048;
            assert(pos == cell(x, y, r0, c));
            if sprite_touches(mem, ir, x, y, n, r0 + 1, pos) {
                let (r2, c2) = choose|r2: int, c2: int|
                    r0 + 1 <= r2 < n && 0 <= c2 < 8 && #[trigger] sprite_bit(
                        sprite_row(mem, ir, r2),
                        c2,
                    ) && pos == cell(x, y, r2, c2) && pos < 2048;
                lemma_cell_injective(x, y, r0, c, r2, c2);
                assert(false);
            }
        }
        // a cell of a later row is not touched by this row
        assert forall|r: int, c: int|
            r0 + 1 <= r < n && 0 <= c < 8 && #[trigger] sprite_bit(sprite_row(mem, ir, r), c)
                && cell(x, y, r, c) < 2048 implies !row_touches(
            row,
            x,
            base,
            0,
            cell(x, y, r, c),
        ) by {
            if row_touches(row, x, base, 0, cell(x, y, r, c)) {
                let c1 = choose|c1: int|
                    0 <= c1 < 8 && #[trigger] sprite_bit(row, c1) && cell(x, y, r, c) == x + c1
                        + base && cell(x, y, r, c) < 2048;
                assert(cell(x, y, r, c) == cell(x, y, r0, c1));
                lemma_cell_injective(x, y, r, c, r0, c1);
                assert(false);
            }
        }
        // an untouched cell is touched neither by this row nor later
        assert forall|pos: int|
            0 <= pos < 2048 && !sprite_touches(mem, ir, x, y, n, r0, pos) implies (!row_touches(
            row,
            x,
            base,
            0,
            pos,
        ) && !sprite_touches(mem, ir, x, y, n, r0 + 1, pos)) by {
            if row_touches(row, x, base, 0, pos) {
                let c = choose|c: int|
                    0 <= c < 8 && #[trigger] sprite_bit(row, c) && pos == x + c + base && pos
                        < 2048;
                assert(pos == cell(x, y, r0, c));
                assert(sprite_touches(mem, ir, x, y, n, r0, pos));
            }
            if sprite_touches(mem, ir, x, y, n, r0 + 1, pos) {
                let (r, c) = choose|r: int, c: int|
                    r0 + 1 <= r < n && 0 <= c < 8 && #[trigger] sprite_bit(
                        sprite_row(mem, ir, r),
                        c,
                    ) && pos == cell(x, y, r, c) && pos < 2048;
                assert(sprite_touches(mem, ir, x, y, n, r0, pos));
            }
        }
        // each on-screen set bit flips its cell
        assert forall|r: int, c: int|
            r0 <= r < n && 0 <= c < 8 && #[trigger] sprite_bit(sprite_row(mem, ir, r), c) && cell(
                x,
                y,
                r,
                c,
            ) < 2048 implies res.0[cell(x, y, r, c)] == g[cell(x, y, r, c)] ^ 1 by {
            let pos = cell(x, y, r, c);
            if r == r0 {
                assert(pos == x + c + base);
                assert(p.0[pos] == g[pos] ^ 1);
                assert(!sprite_touches(mem, ir, x, y, n, r0 + 1, pos)) by {
                    assert(row_touches(row, x, base, 0, pos));
                }
                assert(res.0[pos] == p.0[pos]);
            } else {
                assert(!row_touches(row, x, base, 0, pos));
                assert(p.0[pos] == g[pos]);
                assert(res.0[pos] == p.0[pos] ^ 1);
            }
        }
        // every other cell is untouched
        assert forall|pos: int|
            0 <= pos < 2048 && !sprite_touches(mem, ir, x, y, n, r0, pos) implies res.0[pos]
            == g[pos] by {
            assert(p.0[pos] == g[pos]);
            assert(res.0[pos] == p.0[pos]);
        }
        // the collision flag
        assert(res.1 == (vf || exists|r: int, c: int|
            r0 <= r < n && 0 <= c < 8 && #[trigger] sprite_bit(sprite_row(mem, ir, r), c) && cell(
                x,
                y,
                r,
                c,
            ) < 2048 && g[cell(x, y, r, c)] == 1)) by {
            if res.1 && !vf {
                if p.1 {
                    let c = choose|c: int|
                        0 <= c < 8 && #[trigger] sprite_bit(row, c) && x + c + base < 2048 && g[x
                            + c + base] == 1;
                    assert(cell(x, y, r0, c) == x + c + base);
                    assert(r0 <= r0 < n && 0 <= c < 8 && sprite_bit(sprite_row(mem, ir, r0), c)
                        && cell(x, y, r0, c) < 2048 && g[cell(x, y, r0, c)] == 1);
                } else {
                    let (r, c) = choose|r: int, c: int|
                        r0 + 1 <= r < n && 0 <= c < 8 && #[trigger] sprite_bit(
                            sprite_row(mem, ir, r),
                            c,
                        ) && cell(x, y, r, c) < 2048 && p.0[cell(x, y, r, c)] == 1;
                    assert(!row_touches(row, x, base, 0, cell(x, y, r, c)));
                    assert(g[cell(x, y, r, c)] == 1);
                    assert(r0 <= r < n && 0 <= c < 8 && sprite_bit(sprite_row(mem, ir, r), c)
                        && cell(x, y, r, c) < 2048 && g[cell(x, y, r, c)] == 1);
                }
            }
            if exists|r: int, c: int|
                r0 <= r < n && 0 <= c < 8 && #[trigger] sprite_bit(sprite_row(mem, ir, r), c)
                    && cell(x, y, r, c) < 2048 && g[cell(x, y, r, c)] == 1 {
                let (r, c) = choose|r: int, c: int|
                    r0 <= r < n && 0 <= c < 8 && #[trigger] sprite_bit(sprite_row(mem, ir, r), c)
                        && cell(x, y, r, c) < 2048 && g[cell(x, y, r, c)] == 1;
                if r == r0 {
                    assert(cell(x, y, r0, c) == x + c + base);
                    assert(sprite_bit(row, c) && x + c + base < 2048 && g[x + c + base] == 1);
                    assert(p.1);
                    assert(res.1);
                } else {
                    assert(!row_touches(row, x, base, 0, cell(x, y, r, c)));
                    assert(p.0[cell(x, y, r, c)] == 1);
                    assert(res.1);
                }
            }
        }
    }
}

/// Drawing on an all-zero display writes every touched cell to exactly
/// its sprite bit (XOR against zero is the bit itself), reports no
/// collision, and leaves every other cell zero.
pub proof fn lemma_draw_on_cleared_display(g: Seq<u8>, mem: Seq<u8>, ir: int, x: int, y: int, n: int)
    requires
        g.len() == 2048,
        forall|i: int| 0 <= i < 2048 ==> g[i] == 0,
        0 <= x,
        0 <= y,
    ensures
        draw_sprite(g, false, mem, ir, x, y, n, 0).0.len() == 2048,
        forall|r: int, c: int|
            0 <= r < n && 0 <= c < 8 && #[trigger] cell(x, y, r, c) < 2048 ==> draw_sprite(
                g,
                false,
                mem,
                ir,
                x,
                y,
                n,
                0,
            ).0[cell(x, y, r, c)] == (if sprite_bit(sprite_row(mem, ir, r), c) {
                1u8
            } else {
                0u8
            }),
        !draw_sprite(g, false, mem, ir, x, y, n, 0).1,
        forall|pos: int|
            0 <= pos < 2048 && !sprite_touches(mem, ir, x, y, n, 0, pos) ==> draw_sprite(
                g,
                false,
                mem,
                ir,
                x,
                y,
                n,
                0,
            ).0[pos] == 0,
{
    lemma_sprite_effect(g, false, mem, ir, x, y, n, 0);
    let res = draw_sprite(g, false, mem, ir, x, y, n, 0);
    assert forall|r: int, c: int|
        0 <= r < n && 0 <= c < 8 && #[trigger] cell(x, y, r, c) < 2048 implies res.0[cell(
        x,
        y,
        r,
        c,
    )] == (if sprite_bit(sprite_row(mem, ir, r), c) {
        1u8
    } else {
        0u8
    }) by {
        let pos = cell(x, y, r, c);
        if sprite_bit(sprite_row(mem, ir, r), c) {
            assert(res.0[pos] == g[pos] ^ 1);
            assert((0u8 ^ 1) == 1) by (bit_vector);
        } else {
            assert(!sprite_touches(mem, ir, x, y, n, 0, pos)) by {
                if sprite_touches(mem, ir, x, y, n, 0, pos) {
                    let (r2, c2) = choose|r2: int, c2: int|
                        0 <= r2 < n && 0 <= c2 < 8 && #[trigger] sprite_bit(
                            sprite_row(mem, ir, r2),
                            c2,
                        ) && pos == cell(x, y, r2, c2) && pos < 2048;
                    lemma_cell_injective(x, y, r, c, r2, c2);
                    assert(false);
                }
            }
        }
    }
    assert forall|pos: int|
        0 <= pos < 2048 && !sprite_touches(mem, ir, x, y, n, 0, pos) implies res.0[pos] == 0 by {
        assert(res.0[pos] == g[pos]);
    }
    assert(!res.1) by {
        if exists|r: int, c: int|
            0 <= r < n && 0 <= c < 8 && #[trigger] sprite_bit(sprite_row(mem, ir, r), c) && cell(
                x,
                y,
                r,
                c,
            ) < 2048 && g[cell(x, y, r, c)] == 1 {
            let (r, c) = choose|r: int, c: int|
                0 <= r < n && 0 <= c < 8 && #[trigger] sprite_bit(sprite_row(mem, ir, r), c)
                    && cell(x, y, r, c) < 2048 && g[cell(x, y, r, c)] == 1;
            assert(false);
        }
    }
}

/// Drawing the same sprite twice at the same location restores every
/// display cell to its value before the first draw, and the second
/// draw reports a collision exactly when some on-screen sprite bit
/// lands on a cell the first draw left at 1.
pub proof fn lemma_draw_twice_restores(g: Seq<u8>, mem: Seq<u8>, ir: int, x: int, y: int, n: int)
    requires
        g.len() == 2048,
        0 <= x,
        0 <= y,
    ensures
        ({
            let first = draw_sprite(g, false, mem, ir, x, y, n, 0);
            let second = draw_sprite(first.0, false, mem, ir, x, y, n, 0);
            &&& second.0 == g
            &&& second.1 == (exists|r: int, c: int|
                0 <= r < n && 0 <= c < 8 && #[trigger] sprite_bit(sprite_row(mem, ir, r), c)
                    && cell(x, y, r, c) < 2048 && first.0[cell(x, y, r, c)] == 1)
        }),
{
    let first = draw_sprite(g, false, mem, ir, x, y, n, 0);
    let second = draw_sprite(first.0, false, mem, ir, x, y, n, 0);
    lemma_sprite_effect(g, false, mem, ir, x, y, n, 0);
    lemma_sprite_effect(first.0, false, mem, ir, x, y, n, 0);
    assert forall|pos: int| 0 <= pos < 2048 implies second.0[pos] == g[pos] by {
        if sprite_touches(mem, ir, x, y, n, 0, pos) {
            let (r, c) = choose|r: int, c: int|
                0 <= r < n && 0 <= c < 8 && #[trigger] sprite_bit(sprite_row(mem, ir, r), c) && pos
                    == cell(x, y, r, c) && pos < 2048;
            assert(first.0[pos] == g[pos] ^ 1);
            assert(second.0[pos] == first.0[pos] ^ 1);
            lemma_xor_involution(g[pos]);
        } else {
            assert(first.0[pos] == g[pos]);
            assert(second.0[pos] == g[pos]);
        }
    }
    assert(second.0 =~= g);
}

/// Clear-display followed by any draw, as two executed steps: every
/// touched cell holds exactly its sprite bit, the collision flag is 0,
/// and every other cell is still clear.
pub proof fn lemma_clear_then_draw_steps(s0: Cpu, r1: u8, s1: Cpu, r2: u8, s2: Cpu)
    requires
        step_ok(s0, r1, s1),
        family(spec_fetch(s0)) == 0x0,
        nib(spec_fetch(s0)) == 0x0,
        step_ok(s1, r2, s2),
        family(spec_fetch(s1)) == 0xD,
    ensures
        ({
            let w = spec_fetch(s1);
            let x = s1.v@[xr(w)] as int;
            let y = s1.v@[yr(w)] as int;
            let n = nib(w) as int;
            &&& forall|r: int, c: int|
                0 <= r < n && 0 <= c < 8 && #[trigger] cell(x, y, r, c) < 2048 ==> s2.gfx@[cell(
                    x,
                    y,
                    r,
                    c,
                )] == (if sprite_bit(sprite_row(s1.memory@, s1.ir as int, r), c) {
                    1u8
                } else {
                    0u8
                })
            &&& s2.v@[15] == 0
            &&& forall|pos: int|
                0 <= pos < 2048 && !sprite_touches(s1.memory@, s1.ir as int, x, y, n, 0, pos)
                    ==> s2.gfx@[pos] == 0
        }),
{
    let w = spec_fetch(s1);
    lemma_word_fields(w);
    let x = s1.v@[xr(w)] as int;
    let y = s1.v@[yr(w)] as int;
    let n = nib(w) as int;
    lemma_draw_on_cleared_display(s1.gfx@, s1.memory@, s1.ir as int, x, y, n);
}

/// Two consecutive draw steps of the same sprite at the same location
/// restore the display, and the second step's collision flag is 1
/// exactly when the first draw left one of the touched cells at 1.
/// The coordinate registers must not be the flag register itself, which
/// the first draw overwrites.
pub proof fn lemma_draw_twice_steps(s0: Cpu, r1: u8, s1: Cpu, r2: u8, s2: Cpu)
    requires
        step_ok(s0, r1, s1),
        family(spec_fetch(s0)) == 0xD,
        step_ok(s1, r2, s2),
        family(spec_fetch(s1)) == 0xD,
        xr(spec_fetch(s1)) == xr(spec_fetch(s0)),
        yr(spec_fetch(s1)) == yr(spec_fetch(s0)),
        nib(spec_fetch(s1)) == nib(spec_fetch(s0)),
        xr(spec_fetch(s0)) != 15,
        yr(spec_fetch(s0)) != 15,
    ensures
        s2.gfx@ == s0.gfx@,
        ({
            let w = spec_fetch(s0);
            let x = s0.v@[xr(w)] as int;
            let y = s0.v@[yr(w)] as int;
            let n = nib(w) as int;
            s2.v@[15] == 1 <==> (exists|r: int, c: int|
                0 <= r < n && 0 <= c < 8 && #[trigger] sprite_bit(
                    sprite_row(s0.memory@, s0.ir as int, r),
                    c,
                ) && cell(x, y, r, c) < 2048 && s1.gfx@[cell(x, y, r, c)] == 1)
        }),
{
    let w = spec_fetch(s0);
    lemma_word_fields(w);
    let x = s0.v@[xr(w)] as int;
    let y = s0.v@[yr(w)] as int;
    let n = nib(w) as int;
    assert(s1.v@[xr(spec_fetch(s1))] == s0.v@[xr(w)]);
    assert(s1.v@[yr(spec_fetch(s1))] == s0.v@[yr(w)]);
    lemma_draw_twice_restores(s0.gfx@, s0.memory@, s0.ir as int, x, y, n);
}

} // verus!
