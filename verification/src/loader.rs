use vstd::prelude::*;

use crate::cpu::Cpu;
use crate::cpu::CpuView;
use crate::cpu::MEM_SIZE;
use crate::cpu::PROGRAM_START;
use crate::semantics::VmError;
use crate::semantics::overlay;

verus! {

/// Writes a program image into memory starting at `PROGRAM_START`,
/// leaving everything below that address untouched.  An image that would
/// run past the end of memory is rejected whole: nothing is written.
pub fn load_rom(cpu: &mut Cpu, rom: &Vec<u8>) -> (r: Result<(), VmError>)
    requires
        old(cpu).wf(),
    ensures
        final(cpu).wf(),
        (match r {
            Ok(()) => PROGRAM_START + rom@.len() <= MEM_SIZE && final(cpu)@ == (CpuView {
                memory: overlay(old(cpu)@.memory, PROGRAM_START as int, rom@),
                ..old(cpu)@
            }),
            Err(e) => e == VmError::RomTooLarge && PROGRAM_START + rom@.len() > MEM_SIZE
                && final(cpu)@ == old(cpu)@,
        }),
{
    if rom.len() > MEM_SIZE - PROGRAM_START as usize {
        return Err(VmError::RomTooLarge);
    }
    let base = PROGRAM_START as usize;
    let mut j: usize = 0;
    while j < rom.len()
        invariant
            old(cpu).wf(),
            j <= rom@.len(),
            base == PROGRAM_START,
            base + rom@.len() <= MEM_SIZE,
            cpu@ == (CpuView {
                memory: overlay(old(cpu)@.memory, base as int, rom@.subrange(0, j as int)),
                ..old(cpu)@
            }),
        decreases rom@.len() - j,
    {
        let val = rom[j];
        cpu.memory.set(base + j, val);
        proof {
            assert(cpu@.memory =~= overlay(
                old(cpu)@.memory,
                base as int,
                rom@.subrange(0, j + 1),
            ));
            assert(cpu@ =~= (CpuView {
                memory: overlay(old(cpu)@.memory, base as int, rom@.subrange(0, j + 1)),
                ..old(cpu)@
            }));
        }
        j += 1;
    }
    proof {
        assert(rom@.subrange(0, rom@.len() as int) =~= rom@);
        assert(cpu@ =~= (CpuView {
            memory: overlay(old(cpu)@.memory, PROGRAM_START as int, rom@),
            ..old(cpu)@
        }));
    }
    Ok(())
}

} // verus!
