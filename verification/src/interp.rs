use vstd::prelude::*;

use crate::cpu::Cpu;
use crate::cpu::CpuView;
use crate::cpu::DISPLAY_SIZE;
use crate::cpu::FONT_BASE;
use crate::cpu::MEM_SIZE;
use crate::cpu::NUM_KEYS;
use crate::cpu::STACK_SIZE;
use crate::cpu::filled_flags;
use crate::decode::Instr;
use crate::decode::decode;
use crate::decode::lemma_op_field_bounds;
use crate::semantics::VmError;
use crate::semantics::draw_row;
use crate::semantics::draw_rows;
use crate::semantics::fetch;
use crate::semantics::first_pressed;
use crate::semantics::lemma_first_pressed_from;
use crate::semantics::inc_pc;
use crate::semantics::instr_ok;
use crate::semantics::overlay;
use crate::semantics::sprite_bit;
use crate::semantics::step_err;
use crate::semantics::step_ok;
use crate::semantics::wrap_add;
use crate::semantics::wrap_sub;

verus! {

/// Relies on `rand::random::<u8>`: an arbitrary byte from the thread-local
/// generator; nothing can be promised of its value.
#[verifier::external_body]
fn random_byte() -> u8 {
    rand::random::<u8>()
}

/// Runs one fetch-decode-execute step.  On success the machine moves as
/// `step_ok` describes for the instruction under the program counter; on a
/// fault the machine is left unchanged and the error is exactly the one
/// `step_err` names.  The host must stop stepping a machine that returned
/// an error.
pub fn cycle(cpu: &mut Cpu) -> (r: Result<(), VmError>)
    requires
        old(cpu).wf(),
    ensures
        final(cpu).wf(),
        (match r {
            Ok(()) => step_err(old(cpu)@) is None && step_ok(old(cpu)@, final(cpu)@),
            Err(e) => step_err(old(cpu)@) == Some(e) && final(cpu)@ == old(cpu)@,
        }),
{
    if cpu.pc as usize + 1 >= MEM_SIZE {
        return Err(VmError::MemoryOutOfBounds);
    }
    let pc = cpu.pc as usize;
    let op: u16 = ((cpu.memory[pc] as u16) << 8) | (cpu.memory[pc + 1] as u16);
    let instr = decode(op);
    proof {
        assert(op == fetch(old(cpu)@.memory, old(cpu)@.pc));
        lemma_op_field_bounds(op);
    }
    match instr {
        Instr::Cls => {
            exec_cls(cpu);
            Ok(())
        },
        Instr::Ret => exec_ret(cpu),
        Instr::Jump { nnn } => {
            exec_jump(cpu, nnn);
            Ok(())
        },
        Instr::Call { nnn } => exec_call(cpu, nnn),
        Instr::SkipEqImm { x, kk } => {
            exec_skip_eq_imm(cpu, x, kk);
            Ok(())
        },
        Instr::SkipNeImm { x, kk } => {
            exec_skip_ne_imm(cpu, x, kk);
            Ok(())
        },
        Instr::SkipEqReg { x, y } => {
            exec_skip_eq_reg(cpu, x, y);
            Ok(())
        },
        Instr::SetImm { x, kk } => {
            exec_set_imm(cpu, x, kk);
            Ok(())
        },
        Instr::AddImm { x, kk } => {
            exec_add_imm(cpu, x, kk);
            Ok(())
        },
        Instr::SetReg { x, y } => {
            exec_set_reg(cpu, x, y);
            Ok(())
        },
        Instr::OrReg { x, y } => {
            exec_or_reg(cpu, x, y);
            Ok(())
        },
        Instr::AndReg { x, y } => {
            exec_and_reg(cpu, x, y);
            Ok(())
        },
        Instr::XorReg { x, y } => {
            exec_xor_reg(cpu, x, y);
            Ok(())
        },
        Instr::AddReg { x, y } => {
            exec_add_reg(cpu, x, y);
            Ok(())
        },
        Instr::SubReg { x, y } => {
            exec_sub_reg(cpu, x, y);
            Ok(())
        },
        Instr::ShrReg { x } => {
            exec_shr_reg(cpu, x);
            Ok(())
        },
        Instr::SubnReg { x, y } => {
            exec_subn_reg(cpu, x, y);
            Ok(())
        },
        Instr::ShlReg { x } => {
            exec_shl_reg(cpu, x);
            Ok(())
        },
        Instr::SkipNeReg { x, y } => {
            exec_skip_ne_reg(cpu, x, y);
            Ok(())
        },
        Instr::SetIndex { nnn } => {
            exec_set_index(cpu, nnn);
            Ok(())
        },
        Instr::JumpV0 { nnn } => {
            exec_jump_v0(cpu, nnn);
            Ok(())
        },
        Instr::Rand { x, kk } => {
            exec_rand(cpu, x, kk);
            Ok(())
        },
        Instr::Draw { x, y, n } => exec_draw(cpu, x, y, n),
        Instr::SkipKey { x } => exec_skip_key(cpu, x),
        Instr::SkipNoKey { x } => exec_skip_no_key(cpu, x),
        Instr::GetDelay { x } => {
            exec_get_delay(cpu, x);
            Ok(())
        },
        Instr::WaitKey { x } => {
            exec_wait_key(cpu, x);
            Ok(())
        },
        Instr::SetDelay { x } => {
            exec_set_delay(cpu, x);
            Ok(())
        },
        Instr::SetSound { x } => {
            exec_set_sound(cpu, x);
            Ok(())
        },
        Instr::AddIndex { x } => {
            exec_add_index(cpu, x);
            Ok(())
        },
        Instr::SetFont { x } => {
            exec_set_font(cpu, x);
            Ok(())
        },
        Instr::Bcd { x } => exec_bcd(cpu, x),
        Instr::Store { x } => exec_store(cpu, x),
        Instr::Load { x } => exec_load(cpu, x),
        Instr::Unknown => {
            exec_unknown(cpu);
            Ok(())
        },
    }
}

/// `00E0`: clear the display buffer and flag the redraw.
fn exec_cls(cpu: &mut Cpu)
    requires
        old(cpu).wf(),
        old(cpu).pc + 2 <= MEM_SIZE,
    ensures
        final(cpu).wf(),
        instr_ok(old(cpu)@, final(cpu)@, Instr::Cls),
{
    cpu.display = filled_flags(DISPLAY_SIZE);
    cpu.redraw = true;
    cpu.pc = cpu.pc + 2;
    assert(cpu@ =~= (CpuView {
        display: Seq::new(DISPLAY_SIZE as nat, |p: int| false),
        redraw: true,
        pc: inc_pc(old(cpu)@.pc, 2),
        ..old(cpu)@
    }));
}

/// `00EE`: pop the return address, or fault on an empty stack.
fn exec_ret(cpu: &mut Cpu) -> (r: Result<(), VmError>)
    requires
        old(cpu).wf(),
    ensures
        final(cpu).wf(),
        (match r {
            Ok(()) => old(cpu)@.sp > 0 && instr_ok(old(cpu)@, final(cpu)@, Instr::Ret),
            Err(e) => e == VmError::StackUnderflow && old(cpu)@.sp == 0 && final(cpu)@ == old(
                cpu,
            )@,
        }),
{
    if cpu.sp == 0 {
        return Err(VmError::StackUnderflow);
    }
    cpu.sp = cpu.sp - 1;
    cpu.pc = cpu.stack[cpu.sp as usize];
    assert(cpu@ =~= (CpuView {
        pc: old(cpu)@.stack[old(cpu)@.sp - 1],
        sp: (old(cpu)@.sp - 1) as u8,
        ..old(cpu)@
    }));
    Ok(())
}

/// `1nnn`: jump.
fn exec_jump(cpu: &mut Cpu, nnn: u16)
    requires
        old(cpu).wf(),
    ensures
        final(cpu).wf(),
        instr_ok(old(cpu)@, final(cpu)@, Instr::Jump { nnn }),
{
    cpu.pc = nnn;
    assert(cpu@ =~= (CpuView { pc: nnn, ..old(cpu)@ }));
}

/// `2nnn`: push the address of the next instruction and jump, or fault on
/// a full stack.
fn exec_call(cpu: &mut Cpu, nnn: u16) -> (r: Result<(), VmError>)
    requires
        old(cpu).wf(),
        old(cpu).pc + 2 <= MEM_SIZE,
    ensures
        final(cpu).wf(),
        (match r {
            Ok(()) => old(cpu)@.sp < STACK_SIZE && instr_ok(
                old(cpu)@,
                final(cpu)@,
                Instr::Call { nnn },
            ),
            Err(e) => e == VmError::StackOverflow && old(cpu)@.sp >= STACK_SIZE && final(cpu)@
                == old(cpu)@,
        }),
{
    if cpu.sp as usize >= STACK_SIZE {
        return Err(VmError::StackOverflow);
    }
    cpu.stack.set(cpu.sp as usize, cpu.pc + 2);
    cpu.sp = cpu.sp + 1;
    cpu.pc = nnn;
    assert(cpu@ =~= (CpuView {
        stack: old(cpu)@.stack.update(old(cpu)@.sp as int, inc_pc(old(cpu)@.pc, 2)),
        sp: (old(cpu)@.sp + 1) as u8,
        pc: nnn,
        ..old(cpu)@
    }));
    Ok(())
}

/// Moves the program counter past the current instruction, skipping one
/// more when `cond` holds.
fn advance_pc(cpu: &mut Cpu, cond: bool)
    requires
        old(cpu).wf(),
        old(cpu).pc + 4 <= u16::MAX,
    ensures
        final(cpu).wf(),
        final(cpu)@ == (CpuView {
            pc: inc_pc(old(cpu)@.pc, if cond { 4 } else { 2 }),
            ..old(cpu)@
        }),
{
    if cond {
        cpu.pc = cpu.pc + 4;
    } else {
        cpu.pc = cpu.pc + 2;
    }
    assert(cpu@ =~= (CpuView {
        pc: inc_pc(old(cpu)@.pc, if cond { 4 } else { 2 }),
        ..old(cpu)@
    }));
}

/// `3xkk`: skip the next instruction if `V[x] == kk`.
fn exec_skip_eq_imm(cpu: &mut Cpu, x: u8, kk: u8)
    requires
        old(cpu).wf(),
        old(cpu).pc + 2 <= MEM_SIZE,
        x < 16,
    ensures
        final(cpu).wf(),
        instr_ok(old(cpu)@, final(cpu)@, Instr::SkipEqImm { x, kk }),
{
    let cond = cpu.v[x as usize] == kk;
    advance_pc(cpu, cond);
}

/// `4xkk`: skip the next instruction if `V[x] != kk`.
fn exec_skip_ne_imm(cpu: &mut Cpu, x: u8, kk: u8)
    requires
        old(cpu).wf(),
        old(cpu).pc + 2 <= MEM_SIZE,
        x < 16,
    ensures
        final(cpu).wf(),
        instr_ok(old(cpu)@, final(cpu)@, Instr::SkipNeImm { x, kk }),
{
    let cond = cpu.v[x as usize] != kk;
    advance_pc(cpu, cond);
}

/// `5xy0`: skip the next instruction if `V[x] == V[y]`.
fn exec_skip_eq_reg(cpu: &mut Cpu, x: u8, y: u8)
    requires
        old(cpu).wf(),
        old(cpu).pc + 2 <= MEM_SIZE,
        x < 16,
        y < 16,
    ensures
        final(cpu).wf(),
        instr_ok(old(cpu)@, final(cpu)@, Instr::SkipEqReg { x, y }),
{
    let cond = cpu.v[x as usize] == cpu.v[y as usize];
    advance_pc(cpu, cond);
}

/// `9xy0`: skip the next instruction if `V[x] != V[y]`.
fn exec_skip_ne_reg(cpu: &mut Cpu, x: u8, y: u8)
    requires
        old(cpu).wf(),
        old(cpu).pc + 2 <= MEM_SIZE,
        x < 16,
        y < 16,
    ensures
        final(cpu).wf(),
        instr_ok(old(cpu)@, final(cpu)@, Instr::SkipNeReg { x, y }),
{
    let cond = cpu.v[x as usize] != cpu.v[y as usize];
    advance_pc(cpu, cond);
}

/// Writes one register and moves past the instruction; the shared tail of
/// every plain register write.
fn set_reg_and_advance(cpu: &mut Cpu, x: u8, val: u8)
    requires
        old(cpu).wf(),
        old(cpu).pc + 2 <= MEM_SIZE,
        x < 16,
    ensures
        final(cpu).wf(),
        final(cpu)@ == (CpuView {
            v: old(cpu)@.v.update(x as int, val),
            pc: inc_pc(old(cpu)@.pc, 2),
            ..old(cpu)@
        }),
{
    cpu.v.set(x as usize, val);
    cpu.pc = cpu.pc + 2;
    assert(cpu@ =~= (CpuView {
        v: old(cpu)@.v.update(x as int, val),
        pc: inc_pc(old(cpu)@.pc, 2),
        ..old(cpu)@
    }));
}

/// `6xkk`: `V[x] = kk`.
fn exec_set_imm(cpu: &mut Cpu, x: u8, kk: u8)
    requires
        old(cpu).wf(),
        old(cpu).pc + 2 <= MEM_SIZE,
        x < 16,
    ensures
        final(cpu).wf(),
        instr_ok(old(cpu)@, final(cpu)@, Instr::SetImm { x, kk }),
{
    set_reg_and_advance(cpu, x, kk);
}

/// `7xkk`: `V[x] = (V[x] + kk) mod 256`, with no carry flag.
fn exec_add_imm(cpu: &mut Cpu, x: u8, kk: u8)
    requires
        old(cpu).wf(),
        old(cpu).pc + 2 <= MEM_SIZE,
        x < 16,
    ensures
        final(cpu).wf(),
        instr_ok(old(cpu)@, final(cpu)@, Instr::AddImm { x, kk }),
{
    let val = ((cpu.v[x as usize] as u16 + kk as u16) % 256) as u8;
    assert(val == wrap_add(old(cpu)@.v[x as int], kk));
    set_reg_and_advance(cpu, x, val);
}

/// `8xy0`: `V[x] = V[y]`.
fn exec_set_reg(cpu: &mut Cpu, x: u8, y: u8)
    requires
        old(cpu).wf(),
        old(cpu).pc + 2 <= MEM_SIZE,
        x < 16,
        y < 16,
    ensures
        final(cpu).wf(),
        instr_ok(old(cpu)@, final(cpu)@, Instr::SetReg { x, y }),
{
    let val = cpu.v[y as usize];
    set_reg_and_advance(cpu, x, val);
}

/// `8xy1`: `V[x] |= V[y]`.
fn exec_or_reg(cpu: &mut Cpu, x: u8, y: u8)
    requires
        old(cpu).wf(),
        old(cpu).pc + 2 <= MEM_SIZE,
        x < 16,
        y < 16,
    ensures
        final(cpu).wf(),
        instr_ok(old(cpu)@, final(cpu)@, Instr::OrReg { x, y }),
{
    let val = cpu.v[x as usize] | cpu.v[y as usize];
    set_reg_and_advance(cpu, x, val);
}

/// `8xy2`: `V[x] &= V[y]`.
fn exec_and_reg(cpu: &mut Cpu, x: u8, y: u8)
    requires
        old(cpu).wf(),
        old(cpu).pc + 2 <= MEM_SIZE,
        x < 16,
        y < 16,
    ensures
        final(cpu).wf(),
        instr_ok(old(cpu)@, final(cpu)@, Instr::AndReg { x, y }),
{
    let val = cpu.v[x as usize] & cpu.v[y as usize];
    set_reg_and_advance(cpu, x, val);
}

/// `8xy3`: `V[x] ^= V[y]`.
fn exec_xor_reg(cpu: &mut Cpu, x: u8, y: u8)
    requires
        old(cpu).wf(),
        old(cpu).pc + 2 <= MEM_SIZE,
        x < 16,
        y < 16,
    ensures
        final(cpu).wf(),
        instr_ok(old(cpu)@, final(cpu)@, Instr::XorReg { x, y }),
{
    let val = cpu.v[x as usize] ^ cpu.v[y as usize];
    set_reg_and_advance(cpu, x, val);
}

/// Writes the flag register and then `V[x]`, in that order, and moves past
/// the instruction; the shared tail of the arithmetic instructions.  The
/// flag is computed from the operands before either write, so when `x` is
/// the flag register the sum or difference wins.
fn set_flag_reg_and_advance(cpu: &mut Cpu, x: u8, flag: u8, val: u8)
    requires
        old(cpu).wf(),
        old(cpu).pc + 2 <= MEM_SIZE,
        x < 16,
    ensures
        final(cpu).wf(),
        final(cpu)@ == (CpuView {
            v: old(cpu)@.v.update(15, flag).update(x as int, val),
            pc: inc_pc(old(cpu)@.pc, 2),
            ..old(cpu)@
        }),
{
    cpu.v.set(15, flag);
    cpu.v.set(x as usize, val);
    cpu.pc = cpu.pc + 2;
    assert(cpu@ =~= (CpuView {
        v: old(cpu)@.v.update(15, flag).update(x as int, val),
        pc: inc_pc(old(cpu)@.pc, 2),
        ..old(cpu)@
    }));
}

/// `8xy4`: `V[x] += V[y]`; `VF` is 1 exactly when the sum leaves a byte.
fn exec_add_reg(cpu: &mut Cpu, x: u8, y: u8)
    requires
        old(cpu).wf(),
        old(cpu).pc + 2 <= MEM_SIZE,
        x < 16,
        y < 16,
    ensures
        final(cpu).wf(),
        instr_ok(old(cpu)@, final(cpu)@, Instr::AddReg { x, y }),
{
    let sum = cpu.v[x as usize] as u16 + cpu.v[y as usize] as u16;
    let flag: u8 = if sum > 255 {
        1
    } else {
        0
    };
    let val = (sum % 256) as u8;
    assert(val == wrap_add(old(cpu)@.v[x as int], old(cpu)@.v[y as int]));
    set_flag_reg_and_advance(cpu, x, flag, val);
}

/// `8xy5`: `V[x] -= V[y]`; `VF` is 1 exactly when no borrow occurs.
fn exec_sub_reg(cpu: &mut Cpu, x: u8, y: u8)
    requires
        old(cpu).wf(),
        old(cpu).pc + 2 <= MEM_SIZE,
        x < 16,
        y < 16,
    ensures
        final(cpu).wf(),
        instr_ok(old(cpu)@, final(cpu)@, Instr::SubReg { x, y }),
{
    let vx = cpu.v[x as usize];
    let vy = cpu.v[y as usize];
    let flag: u8 = if vx >= vy {
        1
    } else {
        0
    };
    let val = ((vx as u16 + 256 - vy as u16) % 256) as u8;
    assert(val == wrap_sub(old(cpu)@.v[x as int], old(cpu)@.v[y as int]));
    set_flag_reg_and_advance(cpu, x, flag, val);
}

/// `8xy7`: `V[x] = V[y] - V[x]`; `VF` is 1 exactly when no borrow occurs.
fn exec_subn_reg(cpu: &mut Cpu, x: u8, y: u8)
    requires
        old(cpu).wf(),
        old(cpu).pc + 2 <= MEM_SIZE,
        x < 16,
        y < 16,
    ensures
        final(cpu).wf(),
        instr_ok(old(cpu)@, final(cpu)@, Instr::SubnReg { x, y }),
{
    let vx = cpu.v[x as usize];
    let vy = cpu.v[y as usize];
    let flag: u8 = if vy >= vx {
        1
    } else {
        0
    };
    let val = ((vy as u16 + 256 - vx as u16) % 256) as u8;
    assert(val == wrap_sub(old(cpu)@.v[y as int], old(cpu)@.v[x as int]));
    set_flag_reg_and_advance(cpu, x, flag, val);
}

/// `8xy6`: `VF` takes the least significant bit of `V[x]`, then
/// `V[x] >>= 1`.
fn exec_shr_reg(cpu: &mut Cpu, x: u8)
    requires
        old(cpu).wf(),
        old(cpu).pc + 2 <= MEM_SIZE,
        x < 16,
    ensures
        final(cpu).wf(),
        instr_ok(old(cpu)@, final(cpu)@, Instr::ShrReg { x }),
{
    let vx = cpu.v[x as usize];
    let flag = vx & 1;
    let val = vx >> 1u8;
    set_flag_reg_and_advance(cpu, x, flag, val);
}

/// `8xyE`: `VF` takes the most significant bit of `V[x]`, then
/// `V[x] <<= 1`.
fn exec_shl_reg(cpu: &mut Cpu, x: u8)
    requires
        old(cpu).wf(),
        old(cpu).pc + 2 <= MEM_SIZE,
        x < 16,
    ensures
        final(cpu).wf(),
        instr_ok(old(cpu)@, final(cpu)@, Instr::ShlReg { x }),
{
    let vx = cpu.v[x as usize];
    let flag = (vx >> 7u8) & 1;
    let val = vx << 1u8;
    set_flag_reg_and_advance(cpu, x, flag, val);
}

/// `Annn`: `I = nnn`.
fn exec_set_index(cpu: &mut Cpu, nnn: u16)
    requires
        old(cpu).wf(),
        old(cpu).pc + 2 <= MEM_SIZE,
    ensures
        final(cpu).wf(),
        instr_ok(old(cpu)@, final(cpu)@, Instr::SetIndex { nnn }),
{
    cpu.i = nnn;
    cpu.pc = cpu.pc + 2;
    assert(cpu@ =~= (CpuView { i: nnn, pc: inc_pc(old(cpu)@.pc, 2), ..old(cpu)@ }));
}

/// `Bnnn`: jump to `nnn + V[0]`.
fn exec_jump_v0(cpu: &mut Cpu, nnn: u16)
    requires
        old(cpu).wf(),
        nnn < 4096,
    ensures
        final(cpu).wf(),
        instr_ok(old(cpu)@, final(cpu)@, Instr::JumpV0 { nnn }),
{
    cpu.pc = nnn + cpu.v[0] as u16;
    assert(cpu@ =~= (CpuView { pc: (nnn + old(cpu)@.v[0]) as u16, ..old(cpu)@ }));
}

/// `Cxkk`: `V[x]` takes a fresh random byte masked with `kk`.
fn exec_rand(cpu: &mut Cpu, x: u8, kk: u8)
    requires
        old(cpu).wf(),
        old(cpu).pc + 2 <= MEM_SIZE,
        x < 16,
    ensures
        final(cpu).wf(),
        instr_ok(old(cpu)@, final(cpu)@, Instr::Rand { x, kk }),
{
    let r = random_byte();
    set_reg_and_advance(cpu, x, r & kk);
    proof {
        assert(cpu@ == (CpuView {
            v: old(cpu)@.v.update(x as int, r & kk),
            pc: inc_pc(old(cpu)@.pc, 2),
            ..old(cpu)@
        }));
    }
}

/// `Ex9E`: skip the next instruction if key `V[x]` is pressed; a register
/// value outside the pad is a fault.
fn exec_skip_key(cpu: &mut Cpu, x: u8) -> (r: Result<(), VmError>)
    requires
        old(cpu).wf(),
        old(cpu).pc + 2 <= MEM_SIZE,
        x < 16,
    ensures
        final(cpu).wf(),
        (match r {
            Ok(()) => old(cpu)@.v[x as int] < NUM_KEYS && instr_ok(
                old(cpu)@,
                final(cpu)@,
                Instr::SkipKey { x },
            ),
            Err(e) => e == VmError::KeyOutOfBounds && old(cpu)@.v[x as int] >= NUM_KEYS && final(cpu)@ == old(cpu)@,
        }),
{
    let vx = cpu.v[x as usize];
    if vx as usize >= NUM_KEYS {
        return Err(VmError::KeyOutOfBounds);
    }
    let cond = cpu.keypad[vx as usize];
    advance_pc(cpu, cond);
    Ok(())
}

/// `ExA1`: skip the next instruction if key `V[x]` is not pressed; a
/// register value outside the pad is a fault.
fn exec_skip_no_key(cpu: &mut Cpu, x: u8) -> (r: Result<(), VmError>)
    requires
        old(cpu).wf(),
        old(cpu).pc + 2 <= MEM_SIZE,
        x < 16,
    ensures
        final(cpu).wf(),
        (match r {
            Ok(()) => old(cpu)@.v[x as int] < NUM_KEYS && instr_ok(
                old(cpu)@,
                final(cpu)@,
                Instr::SkipNoKey { x },
            ),
            Err(e) => e == VmError::KeyOutOfBounds && old(cpu)@.v[x as int] >= NUM_KEYS && final(cpu)@ == old(cpu)@,
        }),
{
    let vx = cpu.v[x as usize];
    if vx as usize >= NUM_KEYS {
        return Err(VmError::KeyOutOfBounds);
    }
    let cond = !cpu.keypad[vx as usize];
    advance_pc(cpu, cond);
    Ok(())
}

/// `Fx07`: `V[x] = delay_timer`.
fn exec_get_delay(cpu: &mut Cpu, x: u8)
    requires
        old(cpu).wf(),
        old(cpu).pc + 2 <= MEM_SIZE,
        x < 16,
    ensures
        final(cpu).wf(),
        instr_ok(old(cpu)@, final(cpu)@, Instr::GetDelay { x }),
{
    let val = cpu.delay_timer;
    set_reg_and_advance(cpu, x, val);
}

/// `Fx15`: `delay_timer = V[x]`.
fn exec_set_delay(cpu: &mut Cpu, x: u8)
    requires
        old(cpu).wf(),
        old(cpu).pc + 2 <= MEM_SIZE,
        x < 16,
    ensures
        final(cpu).wf(),
        instr_ok(old(cpu)@, final(cpu)@, Instr::SetDelay { x }),
{
    cpu.delay_timer = cpu.v[x as usize];
    cpu.pc = cpu.pc + 2;
    assert(cpu@ =~= (CpuView {
        delay_timer: old(cpu)@.v[x as int],
        pc: inc_pc(old(cpu)@.pc, 2),
        ..old(cpu)@
    }));
}

/// `Fx18`: `sound_timer = V[x]`.
fn exec_set_sound(cpu: &mut Cpu, x: u8)
    requires
        old(cpu).wf(),
        old(cpu).pc + 2 <= MEM_SIZE,
        x < 16,
    ensures
        final(cpu).wf(),
        instr_ok(old(cpu)@, final(cpu)@, Instr::SetSound { x }),
{
    cpu.sound_timer = cpu.v[x as usize];
    cpu.pc = cpu.pc + 2;
    assert(cpu@ =~= (CpuView {
        sound_timer: old(cpu)@.v[x as int],
        pc: inc_pc(old(cpu)@.pc, 2),
        ..old(cpu)@
    }));
}

/// `Fx1E`: `I += V[x]`, a 16-bit add that wraps.
fn exec_add_index(cpu: &mut Cpu, x: u8)
    requires
        old(cpu).wf(),
        old(cpu).pc + 2 <= MEM_SIZE,
        x < 16,
    ensures
        final(cpu).wf(),
        instr_ok(old(cpu)@, final(cpu)@, Instr::AddIndex { x }),
{
    cpu.i = ((cpu.i as u32 + cpu.v[x as usize] as u32) % 0x10000) as u16;
    cpu.pc = cpu.pc + 2;
    assert(cpu@ =~= (CpuView {
        i: ((old(cpu)@.i + old(cpu)@.v[x as int]) % 0x10000) as u16,
        pc: inc_pc(old(cpu)@.pc, 2),
        ..old(cpu)@
    }));
}

/// `Fx29`: point `I` at the five-byte font glyph for the value of `V[x]`.
fn exec_set_font(cpu: &mut Cpu, x: u8)
    requires
        old(cpu).wf(),
        old(cpu).pc + 2 <= MEM_SIZE,
        x < 16,
    ensures
        final(cpu).wf(),
        instr_ok(old(cpu)@, final(cpu)@, Instr::SetFont { x }),
{
    cpu.i = FONT_BASE + (cpu.v[x as usize] as u16) * 5;
    cpu.pc = cpu.pc + 2;
    assert(cpu@ =~= (CpuView {
        i: (FONT_BASE + old(cpu)@.v[x as int] * 5) as u16,
        pc: inc_pc(old(cpu)@.pc, 2),
        ..old(cpu)@
    }));
}

/// `Fx33`: write the hundreds, tens and ones digits of `V[x]` at `I`,
/// `I+1` and `I+2`, or fault when those addresses leave memory.
fn exec_bcd(cpu: &mut Cpu, x: u8) -> (r: Result<(), VmError>)
    requires
        old(cpu).wf(),
        old(cpu).pc + 2 <= MEM_SIZE,
        x < 16,
    ensures
        final(cpu).wf(),
        (match r {
            Ok(()) => old(cpu)@.i + 3 <= MEM_SIZE && instr_ok(
                old(cpu)@,
                final(cpu)@,
                Instr::Bcd { x },
            ),
            Err(e) => e == VmError::MemoryOutOfBounds && old(cpu)@.i + 3 > MEM_SIZE && final(cpu)@ == old(cpu)@,
        }),
{
    if cpu.i as usize + 3 > MEM_SIZE {
        return Err(VmError::MemoryOutOfBounds);
    }
    let vx = cpu.v[x as usize];
    let i = cpu.i as usize;
    cpu.memory.set(i, vx / 100);
    cpu.memory.set(i + 1, (vx / 10) % 10);
    cpu.memory.set(i + 2, vx % 10);
    cpu.pc = cpu.pc + 2;
    assert(cpu@ =~= (CpuView {
        memory: old(cpu)@.memory
            .update(old(cpu)@.i as int, (old(cpu)@.v[x as int] / 100) as u8)
            .update(old(cpu)@.i as int + 1, ((old(cpu)@.v[x as int] / 10) % 10) as u8)
            .update(old(cpu)@.i as int + 2, (old(cpu)@.v[x as int] % 10) as u8),
        pc: inc_pc(old(cpu)@.pc, 2),
        ..old(cpu)@
    }));
    Ok(())
}

/// `Fx55`: copy `V[0..=x]` into memory at `I` onward, or fault when the
/// range leaves memory.
fn exec_store(cpu: &mut Cpu, x: u8) -> (r: Result<(), VmError>)
    requires
        old(cpu).wf(),
        old(cpu).pc + 2 <= MEM_SIZE,
        x < 16,
    ensures
        final(cpu).wf(),
        (match r {
            Ok(()) => old(cpu)@.i + x + 1 <= MEM_SIZE && instr_ok(
                old(cpu)@,
                final(cpu)@,
                Instr::Store { x },
            ),
            Err(e) => e == VmError::MemoryOutOfBounds && old(cpu)@.i + x + 1 > MEM_SIZE && final(cpu)@ == old(cpu)@,
        }),
{
    if cpu.i as usize + x as usize + 1 > MEM_SIZE {
        return Err(VmError::MemoryOutOfBounds);
    }
    let base = cpu.i as usize;
    let mut j: usize = 0;
    while j <= x as usize
        invariant
            old(cpu).wf(),
            old(cpu).pc + 2 <= MEM_SIZE,
            x < 16,
            j <= x + 1,
            base == old(cpu)@.i,
            base + x + 1 <= MEM_SIZE,
            cpu@ == (CpuView {
                memory: overlay(old(cpu)@.memory, base as int, old(cpu)@.v.subrange(0, j as int)),
                ..old(cpu)@
            }),
        decreases x + 1 - j,
    {
        let val = cpu.v[j];
        cpu.memory.set(base + j, val);
        proof {
            assert(cpu@.memory =~= overlay(
                old(cpu)@.memory,
                base as int,
                old(cpu)@.v.subrange(0, j + 1),
            ));
            assert(cpu@ =~= (CpuView {
                memory: overlay(old(cpu)@.memory, base as int, old(cpu)@.v.subrange(0, j + 1)),
                ..old(cpu)@
            }));
        }
        j += 1;
    }
    cpu.pc = cpu.pc + 2;
    assert(cpu@ =~= (CpuView {
        memory: overlay(old(cpu)@.memory, old(cpu)@.i as int, old(cpu)@.v.subrange(0, x + 1)),
        pc: inc_pc(old(cpu)@.pc, 2),
        ..old(cpu)@
    }));
    Ok(())
}

/// `Fx65`: copy memory at `I` onward into `V[0..=x]`, or fault when the
/// range leaves memory.
fn exec_load(cpu: &mut Cpu, x: u8) -> (r: Result<(), VmError>)
    requires
        old(cpu).wf(),
        old(cpu).pc + 2 <= MEM_SIZE,
        x < 16,
    ensures
        final(cpu).wf(),
        (match r {
            Ok(()) => old(cpu)@.i + x + 1 <= MEM_SIZE && instr_ok(
                old(cpu)@,
                final(cpu)@,
                Instr::Load { x },
            ),
            Err(e) => e == VmError::MemoryOutOfBounds && old(cpu)@.i + x + 1 > MEM_SIZE && final(cpu)@ == old(cpu)@,
        }),
{
    if cpu.i as usize + x as usize + 1 > MEM_SIZE {
        return Err(VmError::MemoryOutOfBounds);
    }
    let base = cpu.i as usize;
    let mut j: usize = 0;
    while j <= x as usize
        invariant
            old(cpu).wf(),
            old(cpu).pc + 2 <= MEM_SIZE,
            x < 16,
            j <= x + 1,
            base == old(cpu)@.i,
            base + x + 1 <= MEM_SIZE,
            cpu@ == (CpuView {
                v: overlay(
                    old(cpu)@.v,
                    0,
                    old(cpu)@.memory.subrange(base as int, base + j),
                ),
                ..old(cpu)@
            }),
        decreases x + 1 - j,
    {
        let val = cpu.memory[base + j];
        cpu.v.set(j, val);
        proof {
            assert(cpu@.v =~= overlay(
                old(cpu)@.v,
                0,
                old(cpu)@.memory.subrange(base as int, base + j + 1),
            ));
            assert(cpu@ =~= (CpuView {
                v: overlay(old(cpu)@.v, 0, old(cpu)@.memory.subrange(base as int, base + j + 1)),
                ..old(cpu)@
            }));
        }
        j += 1;
    }
    cpu.pc = cpu.pc + 2;
    assert(cpu@ =~= (CpuView {
        v: overlay(
            old(cpu)@.v,
            0,
            old(cpu)@.memory.subrange(old(cpu)@.i as int, old(cpu)@.i + x + 1),
        ),
        pc: inc_pc(old(cpu)@.pc, 2),
        ..old(cpu)@
    }));
    Ok(())
}

/// `Fx0A`: test the input latch once; when no key is pressed the machine
/// is left exactly as it was, so the next step retests, and when one is,
/// the lowest-indexed pressed key lands in `V[x]`.
fn exec_wait_key(cpu: &mut Cpu, x: u8)
    requires
        old(cpu).wf(),
        old(cpu).pc + 2 <= MEM_SIZE,
        x < 16,
    ensures
        final(cpu).wf(),
        instr_ok(old(cpu)@, final(cpu)@, Instr::WaitKey { x }),
{
    let mut k: usize = 0;
    let mut found = false;
    while k < NUM_KEYS && !found
        invariant
            old(cpu).wf(),
            cpu@ == old(cpu)@,
            k <= NUM_KEYS,
            forall|m: int| 0 <= m < k ==> !old(cpu)@.keypad[m],
            found ==> k < NUM_KEYS && old(cpu)@.keypad[k as int],
        decreases NUM_KEYS - k + if found { 0int } else { 1int },
    {
        if cpu.keypad[k] {
            found = true;
        } else {
            k += 1;
        }
    }
    proof {
        lemma_first_pressed_from(old(cpu)@.keypad, 0);
    }
    if found {
        assert(first_pressed(old(cpu)@.keypad, 0) == k as int);
        set_reg_and_advance(cpu, x, k as u8);
    } else {
        assert(first_pressed(old(cpu)@.keypad, 0) == NUM_KEYS);
    }
}


/// Any opcode outside the instruction set: a no-op that still moves past
/// the instruction.
fn exec_unknown(cpu: &mut Cpu)
    requires
        old(cpu).wf(),
        old(cpu).pc + 2 <= MEM_SIZE,
    ensures
        final(cpu).wf(),
        instr_ok(old(cpu)@, final(cpu)@, Instr::Unknown),
{
    cpu.pc = cpu.pc + 2;
    assert(cpu@ =~= (CpuView { pc: inc_pc(old(cpu)@.pc, 2), ..old(cpu)@ }));
}

/// `Dxyn`: XOR the `n`-row sprite at `I` onto the display at
/// `(V[x], V[y])`, wrapping at the edges; `VF` reports whether any on
/// pixel was turned off.  Reading a sprite row outside memory is a fault.
fn exec_draw(cpu: &mut Cpu, x: u8, y: u8, n: u8) -> (r: Result<(), VmError>)
    requires
        old(cpu).wf(),
        old(cpu).pc + 2 <= MEM_SIZE,
        x < 16,
        y < 16,
        n < 16,
    ensures
        final(cpu).wf(),
        (match r {
            Ok(()) => (n == 0 || old(cpu)@.i + n <= MEM_SIZE) && instr_ok(
                old(cpu)@,
                final(cpu)@,
                Instr::Draw { x, y, n },
            ),
            Err(e) => e == VmError::MemoryOutOfBounds && n > 0 && old(cpu)@.i + n > MEM_SIZE
                && final(cpu)@ == old(cpu)@,
        }),
{
    if n > 0 && cpu.i as usize + n as usize > MEM_SIZE {
        return Err(VmError::MemoryOutOfBounds);
    }
    let vx = cpu.v[x as usize];
    let vy = cpu.v[y as usize];
    let ghost d0 = cpu@.display;
    let ghost mem = cpu@.memory;
    let ghost i0 = cpu@.i as int;
    let mut hit = false;
    let mut row: usize = 0;
    while row < n as usize
        invariant
            old(cpu).wf(),
            row <= n,
            n > 0 ==> i0 + n <= MEM_SIZE,
            n < 16,
            d0 == old(cpu)@.display,
            mem == old(cpu)@.memory,
            i0 == old(cpu)@.i,
            vx == old(cpu)@.v[x as int],
            vy == old(cpu)@.v[y as int],
            x < 16,
            cpu@ == (CpuView { display: cpu@.display, ..old(cpu)@ }),
            cpu@.display.len() == DISPLAY_SIZE,
            ({
                let full = draw_rows(d0, mem, i0, vx, vy, 0, n as int);
                let rest = draw_rows(cpu@.display, mem, i0, vx, vy, row as int, n as int);
                full.0 == rest.0 && full.1 == (hit || rest.1)
            }),
        decreases n - row,
    {
        let b = cpu.memory[cpu.i as usize + row];
        let r_row: usize = (vy as usize + row) % 32;
        let ghost d_row = cpu@.display;
        let ghost h_row = hit;
        let mut col: usize = 0;
        while col < 8
            invariant
                old(cpu).wf(),
                col <= 8,
                row < n,
                n < 16,
                r_row == (vy + row) % 32,
                r_row < 32,
                cpu@ == (CpuView { display: cpu@.display, ..old(cpu)@ }),
                cpu@.display.len() == DISPLAY_SIZE,
                ({
                    let rowfull = draw_row(d_row, b, vx, r_row as int, 0);
                    let rowrest = draw_row(cpu@.display, b, vx, r_row as int, col as int);
                    rowfull.0 == rowrest.0 && (h_row || rowfull.1) == (hit || rowrest.1)
                }),
            decreases 8 - col,
        {
            let sh: u8 = (7 - col) as u8;
            let bit = (b >> sh) & 1 == 1;
            proof {
                assert(bit == sprite_bit(b, col as int));
            }
            if bit {
                let c: usize = (vx as usize + col) % 64;
                let p = r_row * 64 + c;
                let cur = cpu.display[p];
                if cur {
                    hit = true;
                }
                cpu.display.set(p, !cur);
            }
            col += 1;
        }
        proof {
            assert(draw_row(cpu@.display, b, vx, r_row as int, 8) == (cpu@.display, false));
            assert(b == mem[i0 + row]);
            let step = draw_row(d_row, mem[i0 + row], vx, ((vy + row) % 32) as int, 0);
            let rest = draw_rows(step.0, mem, i0, vx, vy, row as int + 1, n as int);
            assert(draw_rows(d_row, mem, i0, vx, vy, row as int, n as int) == (
                rest.0,
                step.1 || rest.1,
            ));
        }
        row += 1;
    }
    proof {
        assert(draw_rows(cpu@.display, mem, i0, vx, vy, n as int, n as int) == (
            cpu@.display,
            false,
        ));
    }
    let flag: u8 = if hit {
        1
    } else {
        0
    };
    cpu.v.set(15, flag);
    cpu.redraw = true;
    cpu.pc = cpu.pc + 2;
    assert(cpu@ =~= (CpuView {
        display: draw_rows(
            old(cpu)@.display,
            old(cpu)@.memory,
            old(cpu)@.i as int,
            old(cpu)@.v[x as int],
            old(cpu)@.v[y as int],
            0,
            n as int,
        ).0,
        v: old(cpu)@.v.update(
            15,
            if draw_rows(
                old(cpu)@.display,
                old(cpu)@.memory,
                old(cpu)@.i as int,
                old(cpu)@.v[x as int],
                old(cpu)@.v[y as int],
                0,
                n as int,
            ).1 {
                1u8
            } else {
                0u8
            },
        ),
        redraw: true,
        pc: inc_pc(old(cpu)@.pc, 2),
        ..old(cpu)@
    }));
    Ok(())
}

} // verus!
