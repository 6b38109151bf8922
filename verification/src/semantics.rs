use vstd::prelude::*;

use crate::cpu::CpuView;
use crate::cpu::DISPLAY_SIZE;
use crate::cpu::FONT_BASE;
use crate::cpu::MEM_SIZE;
use crate::cpu::NUM_KEYS;
use crate::cpu::STACK_SIZE;
use crate::decode::Instr;
use crate::decode::spec_decode;

verus! {

/// The fatal conditions a machine can run into; none of them is recoverable
/// and the host must stop stepping the machine that reported one.
#[derive(Clone, Copy, PartialEq, Eq, Structural, Debug)]
pub enum VmError {
    /// A memory access, by the program counter or through `I`, would leave
    /// the addressable range.
    MemoryOutOfBounds,
    /// A subroutine call on a full stack.
    StackOverflow,
    /// A return on an empty stack.
    StackUnderflow,
    /// A key test with a register value outside the sixteen keys.
    KeyOutOfBounds,
    /// A program image too large to fit in memory from `PROGRAM_START` on.
    RomTooLarge,
}

/// Byte addition that wraps at 256.
pub open spec fn wrap_add(a: u8, b: u8) -> u8 {
    ((a + b) % 256) as u8
}

/// Byte subtraction that wraps at 256.
pub open spec fn wrap_sub(a: u8, b: u8) -> u8 {
    ((a + 256 - b) % 256) as u8
}

/// The program counter moved `k` bytes forward.
pub open spec fn inc_pc(pc: u16, k: u16) -> u16
    recommends
        pc + k <= u16::MAX,
{
    (pc + k) as u16
}

/// `base` with `data` written over it starting at `at`; entries outside the
/// written range keep their old value.
pub open spec fn overlay<T>(base: Seq<T>, at: int, data: Seq<T>) -> Seq<T>
    recommends
        0 <= at,
        at + data.len() <= base.len(),
{
    Seq::new(base.len(), |j: int| if at <= j < at + data.len() { data[j - at] } else { base[j] })
}

/// The two bytes at `pc` combined big-endian into an opcode.
pub open spec fn fetch(mem: Seq<u8>, pc: u16) -> u16
    recommends
        pc + 1 < mem.len(),
{
    ((mem[pc as int] as u16) << 8) | (mem[pc as int + 1] as u16)
}

/// Whether sprite row byte `b` has a set bit in column `col`; column 0 is
/// the most significant bit.
pub open spec fn sprite_bit(b: u8, col: int) -> bool
    recommends
        0 <= col < 8,
{
    (b >> ((7 - col) as u8)) & 1 == 1
}

/// XORs one sprite bit into the display cell at row `r`, column `c`, both
/// already wrapped into range; yields the display and whether an on pixel
/// was turned off.
pub open spec fn draw_bit(disp: Seq<bool>, bit: bool, r: int, c: int) -> (Seq<bool>, bool)
    recommends
        0 <= r < 32,
        0 <= c < 64,
        disp.len() == DISPLAY_SIZE,
{
    let p = r * 64 + c;
    if bit {
        (disp.update(p, !disp[p]), disp[p])
    } else {
        (disp, false)
    }
}

/// Draws the bits of row byte `b` from column `col` on, at display row `r`;
/// each bit lands at column `(vx + col) mod 64`.
pub open spec fn draw_row(disp: Seq<bool>, b: u8, vx: u8, r: int, col: int) -> (Seq<bool>, bool)
    decreases 8 - col,
{
    if col < 0 || col >= 8 {
        (disp, false)
    } else {
        let step = draw_bit(disp, sprite_bit(b, col), r, (vx + col) % 64);
        let rest = draw_row(step.0, b, vx, r, col + 1);
        (rest.0, step.1 || rest.1)
    }
}

/// Draws sprite rows `row` up to `n`, reading row bytes at `i + row`; each
/// row lands at display row `(vy + row) mod 32`.
pub open spec fn draw_rows(
    disp: Seq<bool>,
    mem: Seq<u8>,
    i: int,
    vx: u8,
    vy: u8,
    row: int,
    n: int,
) -> (Seq<bool>, bool)
    decreases n - row,
{
    if row < 0 || row >= n {
        (disp, false)
    } else {
        let step = draw_row(disp, mem[i + row], vx, (vy + row) % 32, 0);
        let rest = draw_rows(step.0, mem, i, vx, vy, row + 1, n);
        (rest.0, step.1 || rest.1)
    }
}

/// The index of the lowest pressed key at or above `j`, or `NUM_KEYS` when
/// none is pressed.
pub open spec fn first_pressed(keypad: Seq<bool>, j: int) -> int
    decreases NUM_KEYS - j,
{
    if j < 0 || j >= NUM_KEYS {
        NUM_KEYS as int
    } else if keypad[j] {
        j
    } else {
        first_pressed(keypad, j + 1)
    }
}

/// `first_pressed` finds the lowest pressed key at or above `j`: every key
/// below its answer is up, and the answer is pressed unless it is
/// `NUM_KEYS`, which means no key at or above `j` is pressed.
pub proof fn lemma_first_pressed_from(keypad: Seq<bool>, j: int)
    requires
        0 <= j <= NUM_KEYS,
    ensures
        j <= first_pressed(keypad, j) <= NUM_KEYS,
        first_pressed(keypad, j) < NUM_KEYS ==> keypad[first_pressed(keypad, j)],
        forall|m: int| j <= m < first_pressed(keypad, j) ==> !keypad[m],
    decreases NUM_KEYS - j,
{
    if j < NUM_KEYS && !keypad[j] {
        lemma_first_pressed_from(keypad, j + 1);
    }
}


/// Whether the bits of row byte `b`, drawn from column `cstart` on at
/// horizontal origin `vx`, put a set bit on display column `c`.
pub open spec fn row_covers(b: u8, vx: u8, cstart: int, c: int) -> bool {
    exists|col: int| cstart <= col < 8 && c == (vx + col) % 64 && sprite_bit(b, col)
}

/// Whether the sprite rows `rowstart` up to `n`, read at `i + row` and
/// drawn at origin `(vx, vy)`, put a set bit on display cell `(r, c)`.
pub open spec fn sprite_covers(
    mem: Seq<u8>,
    i: int,
    vx: u8,
    vy: u8,
    rowstart: int,
    n: int,
    r: int,
    c: int,
) -> bool {
    exists|row: int|
        rowstart <= row < n && r == (vy + row) % 32 && #[trigger] row_covers(
            mem[i + row],
            vx,
            0,
            c,
        )
}

/// What executing `instr` does to the machine, as a relation between the
/// state before and the state after; it describes the successful outcome
/// and is paired with `step_err`, which says when an instruction faults
/// instead.
pub open spec fn instr_ok(pre: CpuView, post: CpuView, instr: Instr) -> bool {
    match instr {
        Instr::Cls => post == (CpuView {
            display: Seq::new(DISPLAY_SIZE as nat, |p: int| false),
            redraw: true,
            pc: inc_pc(pre.pc, 2),
            ..pre
        }),
        Instr::Ret => post == (CpuView {
            pc: pre.stack[pre.sp - 1],
            sp: (pre.sp - 1) as u8,
            ..pre
        }),
        Instr::Jump { nnn } => post == (CpuView { pc: nnn, ..pre }),
        Instr::Call { nnn } => post == (CpuView {
            stack: pre.stack.update(pre.sp as int, inc_pc(pre.pc, 2)),
            sp: (pre.sp + 1) as u8,
            pc: nnn,
            ..pre
        }),
        Instr::SkipEqImm { x, kk } => post == (CpuView {
            pc: inc_pc(pre.pc, if pre.v[x as int] == kk { 4 } else { 2 }),
            ..pre
        }),
        Instr::SkipNeImm { x, kk } => post == (CpuView {
            pc: inc_pc(pre.pc, if pre.v[x as int] != kk { 4 } else { 2 }),
            ..pre
        }),
        Instr::SkipEqReg { x, y } => post == (CpuView {
            pc: inc_pc(pre.pc, if pre.v[x as int] == pre.v[y as int] { 4 } else { 2 }),
            ..pre
        }),
        Instr::SetImm { x, kk } => post == (CpuView {
            v: pre.v.update(x as int, kk),
            pc: inc_pc(pre.pc, 2),
            ..pre
        }),
        Instr::AddImm { x, kk } => post == (CpuView {
            v: pre.v.update(x as int, wrap_add(pre.v[x as int], kk)),
            pc: inc_pc(pre.pc, 2),
            ..pre
        }),
        Instr::SetReg { x, y } => post == (CpuView {
            v: pre.v.update(x as int, pre.v[y as int]),
            pc: inc_pc(pre.pc, 2),
            ..pre
        }),
        Instr::OrReg { x, y } => post == (CpuView {
            v: pre.v.update(x as int, pre.v[x as int] | pre.v[y as int]),
            pc: inc_pc(pre.pc, 2),
            ..pre
        }),
        Instr::AndReg { x, y } => post == (CpuView {
            v: pre.v.update(x as int, pre.v[x as int] & pre.v[y as int]),
            pc: inc_pc(pre.pc, 2),
            ..pre
        }),
        Instr::XorReg { x, y } => post == (CpuView {
            v: pre.v.update(x as int, pre.v[x as int] ^ pre.v[y as int]),
            pc: inc_pc(pre.pc, 2),
            ..pre
        }),
        Instr::AddReg { x, y } => post == (CpuView {
            v: pre.v
                .update(15, if pre.v[x as int] + pre.v[y as int] > 255 { 1u8 } else { 0u8 })
                .update(x as int, wrap_add(pre.v[x as int], pre.v[y as int])),
            pc: inc_pc(pre.pc, 2),
            ..pre
        }),
        Instr::SubReg { x, y } => post == (CpuView {
            v: pre.v
                .update(15, if pre.v[x as int] >= pre.v[y as int] { 1u8 } else { 0u8 })
                .update(x as int, wrap_sub(pre.v[x as int], pre.v[y as int])),
            pc: inc_pc(pre.pc, 2),
            ..pre
        }),
        Instr::ShrReg { x } => post == (CpuView {
            v: pre.v
                .update(15, pre.v[x as int] & 1)
                .update(x as int, pre.v[x as int] >> 1),
            pc: inc_pc(pre.pc, 2),
            ..pre
        }),
        Instr::SubnReg { x, y } => post == (CpuView {
            v: pre.v
                .update(15, if pre.v[y as int] >= pre.v[x as int] { 1u8 } else { 0u8 })
                .update(x as int, wrap_sub(pre.v[y as int], pre.v[x as int])),
            pc: inc_pc(pre.pc, 2),
            ..pre
        }),
        Instr::ShlReg { x } => post == (CpuView {
            v: pre.v
                .update(15, (pre.v[x as int] >> 7) & 1)
                .update(x as int, pre.v[x as int] << 1),
            pc: inc_pc(pre.pc, 2),
            ..pre
        }),
        Instr::SkipNeReg { x, y } => post == (CpuView {
            pc: inc_pc(pre.pc, if pre.v[x as int] != pre.v[y as int] { 4 } else { 2 }),
            ..pre
        }),
        Instr::SetIndex { nnn } => post == (CpuView {
            i: nnn,
            pc: inc_pc(pre.pc, 2),
            ..pre
        }),
        Instr::JumpV0 { nnn } => post == (CpuView {
            pc: (nnn + pre.v[0]) as u16,
            ..pre
        }),
        Instr::Rand { x, kk } => exists|r: u8|
            post == (CpuView {
                v: pre.v.update(x as int, r & kk),
                pc: inc_pc(pre.pc, 2),
                ..pre
            }),
        Instr::Draw { x, y, n } => {
            let drawn = draw_rows(
                pre.display,
                pre.memory,
                pre.i as int,
                pre.v[x as int],
                pre.v[y as int],
                0,
                n as int,
            );
            post == (CpuView {
                display: drawn.0,
                v: pre.v.update(15, if drawn.1 { 1u8 } else { 0u8 }),
                redraw: true,
                pc: inc_pc(pre.pc, 2),
                ..pre
            })
        },
        Instr::SkipKey { x } => post == (CpuView {
            pc: inc_pc(pre.pc, if pre.keypad[pre.v[x as int] as int] { 4 } else { 2 }),
            ..pre
        }),
        Instr::SkipNoKey { x } => post == (CpuView {
            pc: inc_pc(pre.pc, if pre.keypad[pre.v[x as int] as int] { 2 } else { 4 }),
            ..pre
        }),
        Instr::GetDelay { x } => post == (CpuView {
            v: pre.v.update(x as int, pre.delay_timer),
            pc: inc_pc(pre.pc, 2),
            ..pre
        }),
        Instr::WaitKey { x } => {
            let k = first_pressed(pre.keypad, 0);
            if k == NUM_KEYS {
                post == pre
            } else {
                post == (CpuView {
                    v: pre.v.update(x as int, k as u8),
                    pc: inc_pc(pre.pc, 2),
                    ..pre
                })
            }
        },
        Instr::SetDelay { x } => post == (CpuView {
            delay_timer: pre.v[x as int],
            pc: inc_pc(pre.pc, 2),
            ..pre
        }),
        Instr::SetSound { x } => post == (CpuView {
            sound_timer: pre.v[x as int],
            pc: inc_pc(pre.pc, 2),
            ..pre
        }),
        Instr::AddIndex { x } => post == (CpuView {
            i: ((pre.i + pre.v[x as int]) % 0x10000) as u16,
            pc: inc_pc(pre.pc, 2),
            ..pre
        }),
        Instr::SetFont { x } => post == (CpuView {
            i: (FONT_BASE + pre.v[x as int] * 5) as u16,
            pc: inc_pc(pre.pc, 2),
            ..pre
        }),
        Instr::Bcd { x } => post == (CpuView {
            memory: pre.memory
                .update(pre.i as int, (pre.v[x as int] / 100) as u8)
                .update(pre.i as int + 1, ((pre.v[x as int] / 10) % 10) as u8)
                .update(pre.i as int + 2, (pre.v[x as int] % 10) as u8),
            pc: inc_pc(pre.pc, 2),
            ..pre
        }),
        Instr::Store { x } => post == (CpuView {
            memory: overlay(pre.memory, pre.i as int, pre.v.subrange(0, x + 1)),
            pc: inc_pc(pre.pc, 2),
            ..pre
        }),
        Instr::Load { x } => post == (CpuView {
            v: overlay(pre.v, 0, pre.memory.subrange(pre.i as int, pre.i + x + 1)),
            pc: inc_pc(pre.pc, 2),
            ..pre
        }),
        Instr::Unknown => post == (CpuView { pc: inc_pc(pre.pc, 2), ..pre }),
    }
}

/// The fault, if any, that one step from `pre` runs into: fetching past the
/// end of memory, stack misuse, or an access through `I` or a key index
/// that would leave its range.  `None` means the step succeeds.
pub open spec fn step_err(pre: CpuView) -> Option<VmError> {
    if pre.pc + 1 >= MEM_SIZE {
        Some(VmError::MemoryOutOfBounds)
    } else {
        match spec_decode(fetch(pre.memory, pre.pc)) {
            Instr::Ret => if pre.sp == 0 {
                Some(VmError::StackUnderflow)
            } else {
                None
            },
            Instr::Call { .. } => if pre.sp >= STACK_SIZE {
                Some(VmError::StackOverflow)
            } else {
                None
            },
            Instr::Draw { n, .. } => if n > 0 && pre.i + n > MEM_SIZE {
                Some(VmError::MemoryOutOfBounds)
            } else {
                None
            },
            Instr::SkipKey { x } => if pre.v[x as int] >= NUM_KEYS {
                Some(VmError::KeyOutOfBounds)
            } else {
                None
            },
            Instr::SkipNoKey { x } => if pre.v[x as int] >= NUM_KEYS {
                Some(VmError::KeyOutOfBounds)
            } else {
                None
            },
            Instr::Bcd { .. } => if pre.i + 3 > MEM_SIZE {
                Some(VmError::MemoryOutOfBounds)
            } else {
                None
            },
            Instr::Store { x } => if pre.i + x + 1 > MEM_SIZE {
                Some(VmError::MemoryOutOfBounds)
            } else {
                None
            },
            Instr::Load { x } => if pre.i + x + 1 > MEM_SIZE {
                Some(VmError::MemoryOutOfBounds)
            } else {
                None
            },
            _ => None,
        }
    }
}

/// One successful fetch-decode-execute step: the instruction under the
/// program counter, executed as `instr_ok` says.
pub open spec fn step_ok(pre: CpuView, post: CpuView) -> bool {
    instr_ok(pre, post, spec_decode(fetch(pre.memory, pre.pc)))
}

} // verus!
