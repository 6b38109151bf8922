use vstd::prelude::*;

use crate::cpu::CpuView;
use crate::cpu::MEM_SIZE;
use crate::cpu::MICROS_PER_TICK;
use crate::cpu::NUM_KEYS;
use crate::cpu::NUM_REGS;
use crate::cpu::STACK_SIZE;
use crate::decode::Instr;
use crate::semantics::first_pressed;
use crate::semantics::instr_ok;
use crate::semantics::lemma_first_pressed_from;
use crate::timers::tick_rel;

verus! {

/// Setting a register with `6xkk` and then adding the same immediate with
/// `7xkk` leaves `(kk + kk) mod 256` in that register: immediate addition
/// wraps instead of overflowing.
pub proof fn lemma_set_then_add(pre: CpuView, mid: CpuView, post: CpuView, x: u8, kk: u8)
    requires
        pre.wf(),
        x < NUM_REGS,
        instr_ok(pre, mid, Instr::SetImm { x, kk }),
        instr_ok(mid, post, Instr::AddImm { x, kk }),
    ensures
        post.v[x as int] == (kk + kk) % 256,
{
}

/// `8xy4` computes its carry from the operands before either write: the
/// flag is exactly 0 or 1, it reports whether the sum left a byte, and the
/// destination takes the wrapped sum of the old operands.  When `x` is the
/// flag register itself, the sum, written second, wins.
pub proof fn lemma_add_carry(pre: CpuView, post: CpuView, x: u8, y: u8)
    requires
        pre.wf(),
        x < NUM_REGS,
        y < NUM_REGS,
        instr_ok(pre, post, Instr::AddReg { x, y }),
    ensures
        post.v[x as int] == (pre.v[x as int] + pre.v[y as int]) % 256,
        x != 15 ==> post.v[15] == (if pre.v[x as int] + pre.v[y as int] > 255 {
            1u8
        } else {
            0u8
        }),
        x != 15 ==> (post.v[15] == 0 || post.v[15] == 1),
{
}

/// `8xy5` computes its NOT-borrow flag from the operands before either
/// write: the flag is exactly 0 or 1, it is 1 exactly when `V[x] >= V[y]`
/// held before the instruction, and the destination takes the wrapped
/// difference of the old operands.
pub proof fn lemma_sub_borrow(pre: CpuView, post: CpuView, x: u8, y: u8)
    requires
        pre.wf(),
        x < NUM_REGS,
        y < NUM_REGS,
        instr_ok(pre, post, Instr::SubReg { x, y }),
    ensures
        post.v[x as int] == (pre.v[x as int] - pre.v[y as int] + 256) % 256,
        x != 15 ==> post.v[15] == (if pre.v[x as int] >= pre.v[y as int] {
            1u8
        } else {
            0u8
        }),
        x != 15 ==> (post.v[15] == 0 || post.v[15] == 1),
{
}

/// `8xy7` is the reversed subtraction: the same flag discipline as `8xy5`
/// with the operands swapped.
pub proof fn lemma_subn_borrow(pre: CpuView, post: CpuView, x: u8, y: u8)
    requires
        pre.wf(),
        x < NUM_REGS,
        y < NUM_REGS,
        instr_ok(pre, post, Instr::SubnReg { x, y }),
    ensures
        post.v[x as int] == (pre.v[y as int] - pre.v[x as int] + 256) % 256,
        x != 15 ==> post.v[15] == (if pre.v[y as int] >= pre.v[x as int] {
            1u8
        } else {
            0u8
        }),
        x != 15 ==> (post.v[15] == 0 || post.v[15] == 1),
{
}

/// `8xy6` takes its flag from the least significant bit of the operand,
/// not its low nibble, before the shift is written: the flag is exactly 0
/// or 1 and the destination is halved.
pub proof fn lemma_shr_flag(pre: CpuView, post: CpuView, x: u8)
    requires
        pre.wf(),
        x < NUM_REGS,
        instr_ok(pre, post, Instr::ShrReg { x }),
    ensures
        x != 15 ==> post.v[15] == pre.v[x as int] % 2,
        x != 15 ==> (post.v[15] == 0 || post.v[15] == 1),
        post.v[x as int] == pre.v[x as int] / 2,
{
    let a = pre.v[x as int];
    assert(a & 1 == a % 2) by (bit_vector);
    assert(a >> 1 == a / 2) by (bit_vector);
}

/// `8xyE` takes its flag from the most significant bit of the operand
/// before the shift is written: the flag is exactly 0 or 1 and the
/// destination is doubled modulo 256.
pub proof fn lemma_shl_flag(pre: CpuView, post: CpuView, x: u8)
    requires
        pre.wf(),
        x < NUM_REGS,
        instr_ok(pre, post, Instr::ShlReg { x }),
    ensures
        x != 15 ==> post.v[15] == pre.v[x as int] / 128,
        x != 15 ==> (post.v[15] == 0 || post.v[15] == 1),
        post.v[x as int] == (2 * pre.v[x as int]) % 256,
{
    let a = pre.v[x as int];
    assert((a >> 7) & 1 == a / 128) by (bit_vector);
    assert(a << 1 == (2 * a) % 256) by (bit_vector);
}

/// A call immediately followed by a return lands on the instruction after
/// the call: `2nnn` then `00EE` leaves the program counter advanced by
/// exactly 2 from the call site, the stack pointer where it was, and every
/// register, memory cell and timer untouched.
pub proof fn lemma_call_ret_round_trip(pre: CpuView, mid: CpuView, post: CpuView, nnn: u16)
    requires
        pre.wf(),
        pre.sp < STACK_SIZE,
        pre.pc + 2 <= MEM_SIZE,
        instr_ok(pre, mid, Instr::Call { nnn }),
        instr_ok(mid, post, Instr::Ret),
    ensures
        post.pc == pre.pc + 2,
        post.sp == pre.sp,
        post.v == pre.v,
        post.memory == pre.memory,
        post.display == pre.display,
        post.i == pre.i,
        post.delay_timer == pre.delay_timer,
        post.sound_timer == pre.sound_timer,
        post.keypad == pre.keypad,
        post.stack == pre.stack.update(pre.sp as int, (pre.pc + 2) as u16),
{
}

/// Timer decay is monotone and floored at zero: a tick never drives a
/// timer below zero, a timer at zero stays there, and once enough
/// wall-clock time has been handed in, the timer has reached zero.
pub proof fn lemma_timer_decay(pre: CpuView, post: CpuView, elapsed_us: u64)
    requires
        pre.wf(),
        tick_rel(pre, post, elapsed_us),
    ensures
        post.delay_timer <= pre.delay_timer,
        post.sound_timer <= pre.sound_timer,
        pre.delay_timer == 0 ==> post.delay_timer == 0,
        pre.sound_timer == 0 ==> post.sound_timer == 0,
        pre.tick_remainder + elapsed_us >= MICROS_PER_TICK * pre.delay_timer
            ==> post.delay_timer == 0,
        pre.tick_remainder + elapsed_us >= MICROS_PER_TICK * pre.sound_timer
            ==> post.sound_timer == 0,
{
    let total = pre.tick_remainder + elapsed_us;
    let ticks = total / (MICROS_PER_TICK as int);
    if total >= MICROS_PER_TICK * pre.delay_timer {
        assert(ticks >= pre.delay_timer) by (nonlinear_arith)
            requires
                total >= MICROS_PER_TICK * pre.delay_timer,
                ticks == total / (MICROS_PER_TICK as int),
                MICROS_PER_TICK == 16667,
        ;
    }
    if total >= MICROS_PER_TICK * pre.sound_timer {
        assert(ticks >= pre.sound_timer) by (nonlinear_arith)
            requires
                total >= MICROS_PER_TICK * pre.sound_timer,
                ticks == total / (MICROS_PER_TICK as int),
                MICROS_PER_TICK == 16667,
        ;
    }
}

/// The wait-for-key instruction suspends by polling: while no key is
/// pressed it leaves the machine exactly as it was, the program counter
/// included, so the next step retests the latch; on the step where a key
/// is down, the lowest-indexed pressed key lands in `V[x]` and the program
/// counter moves past the instruction, with nothing else touched.
pub proof fn lemma_wait_key(pre: CpuView, post: CpuView, x: u8)
    requires
        pre.wf(),
        x < NUM_REGS,
        pre.pc + 2 <= MEM_SIZE,
        instr_ok(pre, post, Instr::WaitKey { x }),
    ensures
        (forall|k: int| 0 <= k < NUM_KEYS ==> !pre.keypad[k]) ==> post == pre,
        (exists|k: int| 0 <= k < NUM_KEYS && pre.keypad[k]) ==> {
            let key = first_pressed(pre.keypad, 0);
            &&& 0 <= key < NUM_KEYS
            &&& pre.keypad[key]
            &&& forall|m: int| 0 <= m < key ==> !pre.keypad[m]
            &&& post.v == pre.v.update(x as int, key as u8)
            &&& post.pc == pre.pc + 2
            &&& post.memory == pre.memory
            &&& post.display == pre.display
            &&& post.stack == pre.stack
            &&& post.sp == pre.sp
            &&& post.i == pre.i
        },
{
    lemma_first_pressed_from(pre.keypad, 0);
    let key = first_pressed(pre.keypad, 0);
    if exists|k: int| 0 <= k < NUM_KEYS && pre.keypad[k] {
        let k = choose|k: int| 0 <= k < NUM_KEYS && pre.keypad[k];
        assert(key <= k);
    }
}

} // verus!
