use vstd::prelude::*;

use crate::cpu::Cpu;
use crate::cpu::CpuView;
use crate::cpu::MICROS_PER_TICK;

verus! {

/// A byte counted down by `ticks` and floored at zero.
pub open spec fn decayed(timer: u8, ticks: int) -> u8 {
    if ticks >= timer {
        0u8
    } else {
        (timer - ticks) as u8
    }
}

/// What `tick_timer` does for `elapsed_us` microseconds of wall-clock
/// time: the time not yet accounted for, plus the new time, is converted
/// into whole 60 Hz ticks, both timers drop by that many ticks but never
/// below zero, and the leftover fraction of a tick is kept for the next
/// call, so that repeated calls decay at 60 Hz without compounding drift.
pub open spec fn tick_rel(pre: CpuView, post: CpuView, elapsed_us: u64) -> bool {
    let total = pre.tick_remainder + elapsed_us;
    let ticks = total / (MICROS_PER_TICK as int);
    post == (CpuView {
        delay_timer: decayed(pre.delay_timer, ticks),
        sound_timer: decayed(pre.sound_timer, ticks),
        tick_remainder: (total % (MICROS_PER_TICK as int)) as u64,
        ..pre
    })
}

/// Decays the two timers by the wall-clock time `elapsed_us`, in
/// microseconds, since the previous call; the host may call this at any
/// cadence.
pub fn tick_timer(cpu: &mut Cpu, elapsed_us: u64)
    requires
        old(cpu).wf(),
        old(cpu).tick_remainder + elapsed_us <= u64::MAX,
    ensures
        final(cpu).wf(),
        tick_rel(old(cpu)@, final(cpu)@, elapsed_us),
{
    let total = cpu.tick_remainder + elapsed_us;
    let ticks = total / MICROS_PER_TICK;
    cpu.tick_remainder = total % MICROS_PER_TICK;
    if ticks >= cpu.delay_timer as u64 {
        cpu.delay_timer = 0;
    } else {
        cpu.delay_timer = cpu.delay_timer - ticks as u8;
    }
    if ticks >= cpu.sound_timer as u64 {
        cpu.sound_timer = 0;
    } else {
        cpu.sound_timer = cpu.sound_timer - ticks as u8;
    }
    assert(cpu@ =~= (CpuView {
        delay_timer: decayed(old(cpu)@.delay_timer, (old(cpu)@.tick_remainder + elapsed_us) / (
        MICROS_PER_TICK as int)),
        sound_timer: decayed(old(cpu)@.sound_timer, (old(cpu)@.tick_remainder + elapsed_us) / (
        MICROS_PER_TICK as int)),
        tick_remainder: ((old(cpu)@.tick_remainder + elapsed_us) % (MICROS_PER_TICK as int)) as u64,
        ..old(cpu)@
    }));
}

} // verus!
