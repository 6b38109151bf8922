use vstd::prelude::*;

use crate::cpu::CpuView;
use crate::cpu::DISPLAY_SIZE;
use crate::cpu::MEM_SIZE;
use crate::cpu::NUM_REGS;
use crate::decode::Instr;
use crate::semantics::instr_ok;
use crate::semantics::draw_bit;
use crate::semantics::draw_row;
use crate::semantics::draw_rows;
use crate::semantics::row_covers;
use crate::semantics::sprite_covers;
use crate::semantics::sprite_bit;

verus! {

/// A display cell index decomposes uniquely into its row and column.
proof fn lemma_cell_index(r: int, c: int)
    requires
        0 <= r < 32,
        0 <= c < 64,
    ensures
        (r * 64 + c) / 64 == r,
        (r * 64 + c) % 64 == c,
        0 <= r * 64 + c < DISPLAY_SIZE,
{
    vstd::arithmetic::div_mod::lemma_fundamental_div_mod_converse(r * 64 + c, 64, r, c);
}

/// Distinct sprite columns land on distinct display columns: the wrap at
/// 64 cannot fold two of the eight bits of one row together.
proof fn lemma_wrap_col_injective(vx: u8, c1: int, c2: int)
    requires
        0 <= c1 < 8,
        0 <= c2 < 8,
        (vx + c1) % 64 == (vx + c2) % 64,
    ensures
        c1 == c2,
{
    let a = vx + c1;
    let b = vx + c2;
    vstd::arithmetic::div_mod::lemma_fundamental_div_mod(a, 64);
    vstd::arithmetic::div_mod::lemma_fundamental_div_mod(b, 64);
    assert(a - b == 64 * (a / 64 - b / 64)) by (nonlinear_arith)
        requires
            a == 64 * (a / 64) + a % 64,
            b == 64 * (b / 64) + b % 64,
            a % 64 == b % 64,
    ;
    assert(-64 < 64 * (a / 64 - b / 64) < 64);
    assert(a / 64 == b / 64) by (nonlinear_arith)
        requires
            -64 < 64 * (a / 64 - b / 64) < 64,
    ;
}

/// One sprite row drawn from column `cstart` on: every cell outside its
/// display row keeps its value; within the row, exactly the covered
/// columns are toggled; and a collision is reported exactly when a covered
/// column was on.
proof fn lemma_draw_row_exact(disp: Seq<bool>, b: u8, vx: u8, r: int, cstart: int)
    requires
        disp.len() == DISPLAY_SIZE,
        0 <= r < 32,
        0 <= cstart <= 8,
    ensures
        draw_row(disp, b, vx, r, cstart).0.len() == DISPLAY_SIZE,
        forall|p: int|
            0 <= p < DISPLAY_SIZE && p / 64 != r ==> draw_row(disp, b, vx, r, cstart).0[p]
                == disp[p],
        forall|c: int|
            0 <= c < 64 ==> draw_row(disp, b, vx, r, cstart).0[r * 64 + c] == (disp[r * 64 + c]
                != #[trigger] row_covers(b, vx, cstart, c)),
        draw_row(disp, b, vx, r, cstart).1 == exists|c: int|
            0 <= c < 64 && disp[r * 64 + c] && #[trigger] row_covers(b, vx, cstart, c),
    decreases 8 - cstart,
{
    let res = draw_row(disp, b, vx, r, cstart);
    if cstart >= 8 {
        assert(forall|c: int| !(#[trigger] row_covers(b, vx, cstart, c)));
    } else {
        let c0 = (vx + cstart) % 64;
        let bit = sprite_bit(b, cstart);
        let p0 = r * 64 + c0;
        lemma_cell_index(r, c0);
        let step = draw_bit(disp, bit, r, c0);
        lemma_draw_row_exact(step.0, b, vx, r, cstart + 1);
        let rest = draw_row(step.0, b, vx, r, cstart + 1);
        assert(res == (rest.0, step.1 || rest.1));

        // the first bit's column is not covered again by the rest
        assert(!row_covers(b, vx, cstart + 1, c0)) by {
            if row_covers(b, vx, cstart + 1, c0) {
                let col = choose|col: int|
                    cstart + 1 <= col < 8 && c0 == (vx + col) % 64 && sprite_bit(b, col);
                lemma_wrap_col_injective(vx, cstart, col);
            }
        }

        // coverage from cstart splits into this bit and the rest
        assert forall|c: int| 0 <= c < 64 implies #[trigger] row_covers(b, vx, cstart, c) == (
        row_covers(b, vx, cstart + 1, c) || (c == c0 && bit)) by {
            if row_covers(b, vx, cstart, c) {
                let col = choose|col: int|
                    cstart <= col < 8 && c == (vx + col) % 64 && sprite_bit(b, col);
                if col > cstart {
                    assert(row_covers(b, vx, cstart + 1, c));
                }
            }
            if row_covers(b, vx, cstart + 1, c) {
                let col = choose|col: int|
                    cstart + 1 <= col < 8 && c == (vx + col) % 64 && sprite_bit(b, col);
                assert(cstart <= col < 8 && c == (vx + col) % 64 && sprite_bit(b, col));
                assert(row_covers(b, vx, cstart, c));
            }
            if c == c0 && bit {
                assert(cstart <= cstart < 8 && c == (vx + cstart) % 64 && sprite_bit(b, cstart));
                assert(row_covers(b, vx, cstart, c));
            }
        }

        // cells outside row r
        assert forall|p: int| 0 <= p < DISPLAY_SIZE && p / 64 != r implies res.0[p] == disp[p] by {
            assert(step.0[p] == disp[p]);
        }

        // cells within row r
        assert forall|c: int| 0 <= c < 64 implies res.0[r * 64 + c] == (disp[r * 64 + c]
            != #[trigger] row_covers(b, vx, cstart, c)) by {
            lemma_cell_index(r, c);
            if c == c0 {
                assert(res.0[p0] == (step.0[p0] != row_covers(b, vx, cstart + 1, c0)));
                assert(res.0[p0] == step.0[p0]);
            } else {
                assert(r * 64 + c != p0);
                assert(step.0[r * 64 + c] == disp[r * 64 + c]);
            }
        }

        // the collision flag
        assert(res.1 == (step.1 || rest.1));
        assert(step.1 == (bit && disp[p0]));
        assert(rest.1 == exists|c: int|
            0 <= c < 64 && step.0[r * 64 + c] && #[trigger] row_covers(b, vx, cstart + 1, c));
        assert(rest.1 == exists|c: int|
            0 <= c < 64 && disp[r * 64 + c] && #[trigger] row_covers(b, vx, cstart + 1, c)) by {
            if rest.1 {
                let c = choose|c: int|
                    0 <= c < 64 && step.0[r * 64 + c] && #[trigger] row_covers(b, vx, cstart + 1, c);
                assert(c != c0);
                lemma_cell_index(r, c);
                assert(disp[r * 64 + c] && row_covers(b, vx, cstart + 1, c));
            }
            if exists|c: int|
                0 <= c < 64 && disp[r * 64 + c] && #[trigger] row_covers(b, vx, cstart + 1, c) {
                let c = choose|c: int|
                    0 <= c < 64 && disp[r * 64 + c] && #[trigger] row_covers(b, vx, cstart + 1, c);
                assert(c != c0);
                lemma_cell_index(r, c);
                assert(step.0[r * 64 + c] && row_covers(b, vx, cstart + 1, c));
            }
        }
        assert forall|c: int|
            0 <= c < 64 && disp[r * 64 + c] && #[trigger] row_covers(b, vx, cstart, c) implies (
        res.1) by {
            if c == c0 && bit {
                assert(step.1);
            } else {
                assert(row_covers(b, vx, cstart + 1, c));
            }
        }
        if res.1 {
            if step.1 {
                assert(disp[p0] && row_covers(b, vx, cstart, c0));
            } else {
                let c = choose|c: int|
                    0 <= c < 64 && disp[r * 64 + c] && #[trigger] row_covers(b, vx, cstart + 1, c);
                assert(disp[r * 64 + c] && row_covers(b, vx, cstart, c));
            }
        }
    }
}

/// Distinct sprite rows land on distinct display rows: the wrap at 32
/// cannot fold two of a sprite's at most sixteen rows together.
proof fn lemma_wrap_row_injective(vy: u8, r1: int, r2: int)
    requires
        0 <= r1 < 32,
        0 <= r2 < 32,
        (vy + r1) % 32 == (vy + r2) % 32,
    ensures
        r1 == r2,
{
    let a = vy + r1;
    let b = vy + r2;
    vstd::arithmetic::div_mod::lemma_fundamental_div_mod(a, 32);
    vstd::arithmetic::div_mod::lemma_fundamental_div_mod(b, 32);
    assert(a - b == 32 * (a / 32 - b / 32)) by (nonlinear_arith)
        requires
            a == 32 * (a / 32) + a % 32,
            b == 32 * (b / 32) + b % 32,
            a % 32 == b % 32,
    ;
    assert(-32 < 32 * (a / 32 - b / 32) < 32);
    assert(a / 32 == b / 32) by (nonlinear_arith)
        requires
            -32 < 32 * (a / 32 - b / 32) < 32,
    ;
}

/// The whole sprite, drawn from row `rowstart` on: each display cell is
/// toggled exactly when a sprite bit covers it, and a collision is
/// reported exactly when a covered cell was on.
proof fn lemma_draw_rows_exact(
    disp: Seq<bool>,
    mem: Seq<u8>,
    i: int,
    vx: u8,
    vy: u8,
    rowstart: int,
    n: int,
)
    requires
        disp.len() == DISPLAY_SIZE,
        0 <= rowstart,
        n <= 32,
    ensures
        draw_rows(disp, mem, i, vx, vy, rowstart, n).0.len() == DISPLAY_SIZE,
        forall|r: int, c: int|
            0 <= r < 32 && 0 <= c < 64 ==> draw_rows(disp, mem, i, vx, vy, rowstart, n).0[r * 64
                + c] == (disp[r * 64 + c] != #[trigger] sprite_covers(
                mem,
                i,
                vx,
                vy,
                rowstart,
                n,
                r,
                c,
            )),
        draw_rows(disp, mem, i, vx, vy, rowstart, n).1 == exists|r: int, c: int|
            0 <= r < 32 && 0 <= c < 64 && disp[r * 64 + c] && #[trigger] sprite_covers(
                mem,
                i,
                vx,
                vy,
                rowstart,
                n,
                r,
                c,
            ),
    decreases n - rowstart,
{
    let res = draw_rows(disp, mem, i, vx, vy, rowstart, n);
    if rowstart >= n {
        assert(forall|r: int, c: int| !(#[trigger] sprite_covers(mem, i, vx, vy, rowstart, n, r, c)));
    } else {
        let r0 = (vy + rowstart) % 32;
        let b0 = mem[i + rowstart];
        assert(0 <= r0 < 32);
        lemma_draw_row_exact(disp, b0, vx, r0, 0);
        let step = draw_row(disp, b0, vx, r0, 0);
        lemma_draw_rows_exact(step.0, mem, i, vx, vy, rowstart + 1, n);
        let rest = draw_rows(step.0, mem, i, vx, vy, rowstart + 1, n);
        assert(res == (rest.0, step.1 || rest.1));

        // no later row lands on this sprite row's display row
        assert forall|c: int| !(#[trigger] sprite_covers(mem, i, vx, vy, rowstart + 1, n, r0, c)) by {
            if sprite_covers(mem, i, vx, vy, rowstart + 1, n, r0, c) {
                let row = choose|row: int|
                    rowstart + 1 <= row < n && r0 == (vy + row) % 32 && #[trigger] row_covers(
                        mem[i + row],
                        vx,
                        0,
                        c,
                    );
                lemma_wrap_row_injective(vy, rowstart, row);
            }
        }

        // coverage from rowstart splits into this row and the rest
        assert forall|r: int, c: int| #[trigger] sprite_covers(mem, i, vx, vy, rowstart, n, r, c)
            == ((r == r0 && row_covers(b0, vx, 0, c)) || sprite_covers(
            mem,
            i,
            vx,
            vy,
            rowstart + 1,
            n,
            r,
            c,
        )) by {
            if sprite_covers(mem, i, vx, vy, rowstart, n, r, c) {
                let row = choose|row: int|
                    rowstart <= row < n && r == (vy + row) % 32 && #[trigger] row_covers(
                        mem[i + row],
                        vx,
                        0,
                        c,
                    );
                if row > rowstart {
                    assert(sprite_covers(mem, i, vx, vy, rowstart + 1, n, r, c));
                }
            }
            if sprite_covers(mem, i, vx, vy, rowstart + 1, n, r, c) {
                let row = choose|row: int|
                    rowstart + 1 <= row < n && r == (vy + row) % 32 && #[trigger] row_covers(
                        mem[i + row],
                        vx,
                        0,
                        c,
                    );
                assert(rowstart <= row < n && r == (vy + row) % 32 && row_covers(
                    mem[i + row],
                    vx,
                    0,
                    c,
                ));
                assert(sprite_covers(mem, i, vx, vy, rowstart, n, r, c));
            }
            if r == r0 && row_covers(b0, vx, 0, c) {
                assert(rowstart <= rowstart < n && r == (vy + rowstart) % 32 && row_covers(
                    mem[i + rowstart],
                    vx,
                    0,
                    c,
                ));
                assert(sprite_covers(mem, i, vx, vy, rowstart, n, r, c));
            }
        }

        // cell values
        assert forall|r: int, c: int| 0 <= r < 32 && 0 <= c < 64 implies res.0[r * 64 + c] == (
        disp[r * 64 + c] != #[trigger] sprite_covers(mem, i, vx, vy, rowstart, n, r, c)) by {
            lemma_cell_index(r, c);
            if r == r0 {
                assert(!sprite_covers(mem, i, vx, vy, rowstart + 1, n, r0, c));
                assert(rest.0[r * 64 + c] == step.0[r * 64 + c]);
                assert(step.0[r0 * 64 + c] == (disp[r0 * 64 + c] != row_covers(b0, vx, 0, c)));
            } else {
                assert((r * 64 + c) / 64 != r0);
                assert(step.0[r * 64 + c] == disp[r * 64 + c]);
            }
        }

        // the collision flag
        assert(step.1 == exists|c: int|
            0 <= c < 64 && disp[r0 * 64 + c] && #[trigger] row_covers(b0, vx, 0, c));
        assert(rest.1 == exists|r: int, c: int|
            0 <= r < 32 && 0 <= c < 64 && step.0[r * 64 + c] && #[trigger] sprite_covers(
                mem,
                i,
                vx,
                vy,
                rowstart + 1,
                n,
                r,
                c,
            ));
        assert forall|r: int, c: int|
            0 <= r < 32 && 0 <= c < 64 && disp[r * 64 + c] && #[trigger] sprite_covers(
                mem,
                i,
                vx,
                vy,
                rowstart,
                n,
                r,
                c,
            ) implies (res.1) by {
            lemma_cell_index(r, c);
            if r == r0 && row_covers(b0, vx, 0, c) {
                assert(step.1);
            } else {
                assert(sprite_covers(mem, i, vx, vy, rowstart + 1, n, r, c));
                assert(r != r0);
                assert((r * 64 + c) / 64 != r0);
                assert(step.0[r * 64 + c]);
            }
        }
        if res.1 {
            if step.1 {
                let c = choose|c: int|
                    0 <= c < 64 && disp[r0 * 64 + c] && #[trigger] row_covers(b0, vx, 0, c);
                assert(sprite_covers(mem, i, vx, vy, rowstart, n, r0, c));
                assert(disp[r0 * 64 + c] && sprite_covers(mem, i, vx, vy, rowstart, n, r0, c));
            } else {
                let (r, c) = choose|r: int, c: int|
                    0 <= r < 32 && 0 <= c < 64 && step.0[r * 64 + c] && #[trigger] sprite_covers(
                        mem,
                        i,
                        vx,
                        vy,
                        rowstart + 1,
                        n,
                        r,
                        c,
                    );
                lemma_cell_index(r, c);
                assert(r != r0);
                assert((r * 64 + c) / 64 != r0);
                assert(disp[r * 64 + c] && sprite_covers(mem, i, vx, vy, rowstart, n, r, c));
            }
        }
    }
}

/// Sprite drawing is bit-exact: `Dxyn` toggles exactly those display
/// cells that a set sprite bit covers, wrapping at both edges, leaves
/// every other cell alone, flags the redraw, and reports in `VF` exactly
/// whether any covered cell was on and so was turned off.
pub proof fn lemma_draw_bit_exact(pre: CpuView, post: CpuView, x: u8, y: u8, n: u8)
    requires
        pre.wf(),
        x < NUM_REGS,
        y < NUM_REGS,
        n < 16,
        pre.pc + 2 <= MEM_SIZE,
        instr_ok(pre, post, Instr::Draw { x, y, n }),
    ensures
        post.display.len() == DISPLAY_SIZE,
        forall|r: int, c: int|
            0 <= r < 32 && 0 <= c < 64 ==> post.display[r * 64 + c] == (pre.display[r * 64 + c]
                != #[trigger] sprite_covers(
                pre.memory,
                pre.i as int,
                pre.v[x as int],
                pre.v[y as int],
                0,
                n as int,
                r,
                c,
            )),
        post.v == pre.v.update(
            15,
            if exists|r: int, c: int|
                0 <= r < 32 && 0 <= c < 64 && pre.display[r * 64 + c] && #[trigger] sprite_covers(
                    pre.memory,
                    pre.i as int,
                    pre.v[x as int],
                    pre.v[y as int],
                    0,
                    n as int,
                    r,
                    c,
                ) {
                1u8
            } else {
                0u8
            },
        ),
        post.pc == pre.pc + 2,
        post.redraw,
        post.memory == pre.memory,
        post.i == pre.i,
        post.stack == pre.stack,
        post.sp == pre.sp,
        post.keypad == pre.keypad,
        post.delay_timer == pre.delay_timer,
        post.sound_timer == pre.sound_timer,
{
    lemma_draw_rows_exact(
        pre.display,
        pre.memory,
        pre.i as int,
        pre.v[x as int],
        pre.v[y as int],
        0,
        n as int,
    );
}

/// Drawing one sprite twice at the same spot restores the display: the
/// XOR protocol toggles every covered cell straight back.  And when the
/// first draw turned any cell on, the second reports the collision in
/// `VF`.  The coordinate registers must not be the flag register, which
/// the first draw overwrites.
pub proof fn lemma_draw_twice_restores(
    pre: CpuView,
    mid: CpuView,
    post: CpuView,
    x: u8,
    y: u8,
    n: u8,
)
    requires
        pre.wf(),
        x < NUM_REGS,
        y < NUM_REGS,
        n < 16,
        x != 15,
        y != 15,
        pre.pc + 2 <= MEM_SIZE,
        mid.pc + 2 <= MEM_SIZE,
        instr_ok(pre, mid, Instr::Draw { x, y, n }),
        instr_ok(mid, post, Instr::Draw { x, y, n }),
    ensures
        post.display == pre.display,
        (exists|r: int, c: int|
            0 <= r < 32 && 0 <= c < 64 && !pre.display[r * 64 + c] && #[trigger] sprite_covers(
                pre.memory,
                pre.i as int,
                pre.v[x as int],
                pre.v[y as int],
                0,
                n as int,
                r,
                c,
            )) ==> post.v[15] == 1,
{
    lemma_draw_bit_exact(pre, mid, x, y, n);
    assert(mid.wf());
    lemma_draw_bit_exact(mid, post, x, y, n);
    let vx = pre.v[x as int];
    let vy = pre.v[y as int];
    let i = pre.i as int;
    assert(mid.v[x as int] == vx && mid.v[y as int] == vy);
    assert forall|p: int| 0 <= p < DISPLAY_SIZE implies post.display[p] == pre.display[p] by {
        vstd::arithmetic::div_mod::lemma_fundamental_div_mod(p, 64);
        let r = p / 64;
        let c = p % 64;
        assert(p == r * 64 + c);
        assert(0 <= r < 32 && 0 <= c < 64);
        assert(mid.display[r * 64 + c] == (pre.display[r * 64 + c] != sprite_covers(
            pre.memory,
            i,
            vx,
            vy,
            0,
            n as int,
            r,
            c,
        )));
        assert(post.display[r * 64 + c] == (mid.display[r * 64 + c] != sprite_covers(
            pre.memory,
            i,
            vx,
            vy,
            0,
            n as int,
            r,
            c,
        )));
    }
    assert(post.display =~= pre.display);
    if exists|r: int, c: int|
        0 <= r < 32 && 0 <= c < 64 && !pre.display[r * 64 + c] && #[trigger] sprite_covers(
            pre.memory,
            i,
            vx,
            vy,
            0,
            n as int,
            r,
            c,
        ) {
        let (r, c) = choose|r: int, c: int|
            0 <= r < 32 && 0 <= c < 64 && !pre.display[r * 64 + c] && #[trigger] sprite_covers(
                pre.memory,
                i,
                vx,
                vy,
                0,
                n as int,
                r,
                c,
            );
        lemma_cell_index(r, c);
        assert(mid.display[r * 64 + c]);
        assert(mid.display[r * 64 + c] && sprite_covers(pre.memory, i, vx, vy, 0, n as int, r, c));
        assert(post.v[15] == 1);
    }
}

} // verus!
