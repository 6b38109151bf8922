use vstd::prelude::*;

verus! {

/// One decoded instruction, with its operands already extracted: `x` and
/// `y` name registers, `kk` is an immediate byte, `nnn` a 12-bit address
/// and `n` a nibble.
#[derive(Clone, Copy, PartialEq, Eq, Structural, Debug)]
pub enum Instr {
    /// `00E0`: clear the display buffer.
    Cls,
    /// `00EE`: return from a subroutine.
    Ret,
    /// `1nnn`: jump to `nnn`.
    Jump { nnn: u16 },
    /// `2nnn`: call the subroutine at `nnn`.
    Call { nnn: u16 },
    /// `3xkk`: skip the next instruction if `V[x] == kk`.
    SkipEqImm { x: u8, kk: u8 },
    /// `4xkk`: skip the next instruction if `V[x] != kk`.
    SkipNeImm { x: u8, kk: u8 },
    /// `5xy0`: skip the next instruction if `V[x] == V[y]`.
    SkipEqReg { x: u8, y: u8 },
    /// `6xkk`: `V[x] = kk`.
    SetImm { x: u8, kk: u8 },
    /// `7xkk`: `V[x] = (V[x] + kk) mod 256`.
    AddImm { x: u8, kk: u8 },
    /// `8xy0`: `V[x] = V[y]`.
    SetReg { x: u8, y: u8 },
    /// `8xy1`: `V[x] |= V[y]`.
    OrReg { x: u8, y: u8 },
    /// `8xy2`: `V[x] &= V[y]`.
    AndReg { x: u8, y: u8 },
    /// `8xy3`: `V[x] ^= V[y]`.
    XorReg { x: u8, y: u8 },
    /// `8xy4`: `V[x] += V[y]` with the carry in `VF`.
    AddReg { x: u8, y: u8 },
    /// `8xy5`: `V[x] -= V[y]` with NOT-borrow in `VF`.
    SubReg { x: u8, y: u8 },
    /// `8xy6`: `VF` takes the least significant bit of `V[x]`; `V[x] >>= 1`.
    ShrReg { x: u8 },
    /// `8xy7`: `V[x] = V[y] - V[x]` with NOT-borrow in `VF`.
    SubnReg { x: u8, y: u8 },
    /// `8xyE`: `VF` takes the most significant bit of `V[x]`; `V[x] <<= 1`.
    ShlReg { x: u8 },
    /// `9xy0`: skip the next instruction if `V[x] != V[y]`.
    SkipNeReg { x: u8, y: u8 },
    /// `Annn`: `I = nnn`.
    SetIndex { nnn: u16 },
    /// `Bnnn`: jump to `nnn + V[0]`.
    JumpV0 { nnn: u16 },
    /// `Cxkk`: `V[x] = random byte AND kk`.
    Rand { x: u8, kk: u8 },
    /// `Dxyn`: draw the `n`-row sprite at `I` at `(V[x], V[y])`.
    Draw { x: u8, y: u8, n: u8 },
    /// `Ex9E`: skip the next instruction if key `V[x]` is pressed.
    SkipKey { x: u8 },
    /// `ExA1`: skip the next instruction if key `V[x]` is not pressed.
    SkipNoKey { x: u8 },
    /// `Fx07`: `V[x] = delay_timer`.
    GetDelay { x: u8 },
    /// `Fx0A`: wait until a key is pressed, then store it in `V[x]`.
    WaitKey { x: u8 },
    /// `Fx15`: `delay_timer = V[x]`.
    SetDelay { x: u8 },
    /// `Fx18`: `sound_timer = V[x]`.
    SetSound { x: u8 },
    /// `Fx1E`: `I += V[x]`.
    AddIndex { x: u8 },
    /// `Fx29`: point `I` at the font glyph for `V[x]`.
    SetFont { x: u8 },
    /// `Fx33`: store the decimal digits of `V[x]` at `I`, `I+1`, `I+2`.
    Bcd { x: u8 },
    /// `Fx55`: store `V[0..=x]` at `I` onward.
    Store { x: u8 },
    /// `Fx65`: load `V[0..=x]` from `I` onward.
    Load { x: u8 },
    /// Any pattern outside the instruction set; executed as a no-op.
    Unknown,
}

/// The `x` field of an opcode: bits 11 down to 8.
pub open spec fn op_x(op: u16) -> u8 {
    ((op >> 8) & 0xF) as u8
}

/// The `y` field of an opcode: bits 7 down to 4.
pub open spec fn op_y(op: u16) -> u8 {
    ((op >> 4) & 0xF) as u8
}

/// The `kk` field of an opcode: its low byte.
pub open spec fn op_kk(op: u16) -> u8 {
    (op & 0xFF) as u8
}

/// The `nnn` field of an opcode: its low 12 bits.
pub open spec fn op_nnn(op: u16) -> u16 {
    op & 0xFFF
}

/// The `n` field of an opcode: its low nibble.
pub open spec fn op_n(op: u16) -> u8 {
    (op & 0xF) as u8
}

/// The opcode fields land in their ranges: register fields and `n` are
/// nibbles, `nnn` is twelve bits.
pub proof fn lemma_op_field_bounds(op: u16)
    by (bit_vector)
    ensures
        op_x(op) < 16,
        op_y(op) < 16,
        op_n(op) < 16,
        op_nnn(op) < 4096,
{
}

/// Maps a 16-bit opcode to the instruction it encodes, dispatching on the
/// high nibble and, for the `0x0`, `0x8`, `0xE` and `0xF` families, on the
/// low byte or low nibble.
pub open spec fn spec_decode(op: u16) -> Instr {
    let high = op >> 12;
    if op == 0x00E0 {
        Instr::Cls
    } else if op == 0x00EE {
        Instr::Ret
    } else if high == 0x1 {
        Instr::Jump { nnn: op_nnn(op) }
    } else if high == 0x2 {
        Instr::Call { nnn: op_nnn(op) }
    } else if high == 0x3 {
        Instr::SkipEqImm { x: op_x(op), kk: op_kk(op) }
    } else if high == 0x4 {
        Instr::SkipNeImm { x: op_x(op), kk: op_kk(op) }
    } else if high == 0x5 && op_n(op) == 0x0 {
        Instr::SkipEqReg { x: op_x(op), y: op_y(op) }
    } else if high == 0x6 {
        Instr::SetImm { x: op_x(op), kk: op_kk(op) }
    } else if high == 0x7 {
        Instr::AddImm { x: op_x(op), kk: op_kk(op) }
    } else if high == 0x8 {
        if op_n(op) == 0x0 {
            Instr::SetReg { x: op_x(op), y: op_y(op) }
        } else if op_n(op) == 0x1 {
            Instr::OrReg { x: op_x(op), y: op_y(op) }
        } else if op_n(op) == 0x2 {
            Instr::AndReg { x: op_x(op), y: op_y(op) }
        } else if op_n(op) == 0x3 {
            Instr::XorReg { x: op_x(op), y: op_y(op) }
        } else if op_n(op) == 0x4 {
            Instr::AddReg { x: op_x(op), y: op_y(op) }
        } else if op_n(op) == 0x5 {
            Instr::SubReg { x: op_x(op), y: op_y(op) }
        } else if op_n(op) == 0x6 {
            Instr::ShrReg { x: op_x(op) }
        } else if op_n(op) == 0x7 {
            Instr::SubnReg { x: op_x(op), y: op_y(op) }
        } else if op_n(op) == 0xE {
            Instr::ShlReg { x: op_x(op) }
        } else {
            Instr::Unknown
        }
    } else if high == 0x9 && op_n(op) == 0x0 {
        Instr::SkipNeReg { x: op_x(op), y: op_y(op) }
    } else if high == 0xA {
        Instr::SetIndex { nnn: op_nnn(op) }
    } else if high == 0xB {
        Instr::JumpV0 { nnn: op_nnn(op) }
    } else if high == 0xC {
        Instr::Rand { x: op_x(op), kk: op_kk(op) }
    } else if high == 0xD {
        Instr::Draw { x: op_x(op), y: op_y(op), n: op_n(op) }
    } else if high == 0xE && op_kk(op) == 0x9E {
        Instr::SkipKey { x: op_x(op) }
    } else if high == 0xE && op_kk(op) == 0xA1 {
        Instr::SkipNoKey { x: op_x(op) }
    } else if high == 0xF {
        if op_kk(op) == 0x07 {
            Instr::GetDelay { x: op_x(op) }
        } else if op_kk(op) == 0x0A {
            Instr::WaitKey { x: op_x(op) }
        } else if op_kk(op) == 0x15 {
            Instr::SetDelay { x: op_x(op) }
        } else if op_kk(op) == 0x18 {
            Instr::SetSound { x: op_x(op) }
        } else if op_kk(op) == 0x1E {
            Instr::AddIndex { x: op_x(op) }
        } else if op_kk(op) == 0x29 {
            Instr::SetFont { x: op_x(op) }
        } else if op_kk(op) == 0x33 {
            Instr::Bcd { x: op_x(op) }
        } else if op_kk(op) == 0x55 {
            Instr::Store { x: op_x(op) }
        } else if op_kk(op) == 0x65 {
            Instr::Load { x: op_x(op) }
        } else {
            Instr::Unknown
        }
    } else {
        Instr::Unknown
    }
}

/// Decodes one opcode.
pub fn decode(op: u16) -> (instr: Instr)
    ensures
        instr == spec_decode(op),
{
    let high = op >> 12;
    let x = ((op >> 8) & 0xF) as u8;
    let y = ((op >> 4) & 0xF) as u8;
    let kk = (op & 0xFF) as u8;
    let nnn = op & 0xFFF;
    let n = (op & 0xF) as u8;
    if op == 0x00E0 {
        Instr::Cls
    } else if op == 0x00EE {
        Instr::Ret
    } else if high == 0x1 {
        Instr::Jump { nnn }
    } else if high == 0x2 {
        Instr::Call { nnn }
    } else if high == 0x3 {
        Instr::SkipEqImm { x, kk }
    } else if high == 0x4 {
        Instr::SkipNeImm { x, kk }
    } else if high == 0x5 && n == 0x0 {
        Instr::SkipEqReg { x, y }
    } else if high == 0x6 {
        Instr::SetImm { x, kk }
    } else if high == 0x7 {
        Instr::AddImm { x, kk }
    } else if high == 0x8 {
        if n == 0x0 {
            Instr::SetReg { x, y }
        } else if n == 0x1 {
            Instr::OrReg { x, y }
        } else if n == 0x2 {
            Instr::AndReg { x, y }
        } else if n == 0x3 {
            Instr::XorReg { x, y }
        } else if n == 0x4 {
            Instr::AddReg { x, y }
        } else if n == 0x5 {
            Instr::SubReg { x, y }
        } else if n == 0x6 {
            Instr::ShrReg { x }
        } else if n == 0x7 {
            Instr::SubnReg { x, y }
        } else if n == 0xE {
            Instr::ShlReg { x }
        } else {
            Instr::Unknown
        }
    } else if high == 0x9 && n == 0x0 {
        Instr::SkipNeReg { x, y }
    } else if high == 0xA {
        Instr::SetIndex { nnn }
    } else if high == 0xB {
        Instr::JumpV0 { nnn }
    } else if high == 0xC {
        Instr::Rand { x, kk }
    } else if high == 0xD {
        Instr::Draw { x, y, n }
    } else if high == 0xE && kk == 0x9E {
        Instr::SkipKey { x }
    } else if high == 0xE && kk == 0xA1 {
        Instr::SkipNoKey { x }
    } else if high == 0xF {
        if kk == 0x07 {
            Instr::GetDelay { x }
        } else if kk == 0x0A {
            Instr::WaitKey { x }
        } else if kk == 0x15 {
            Instr::SetDelay { x }
        } else if kk == 0x18 {
            Instr::SetSound { x }
        } else if kk == 0x1E {
            Instr::AddIndex { x }
        } else if kk == 0x29 {
            Instr::SetFont { x }
        } else if kk == 0x33 {
            Instr::Bcd { x }
        } else if kk == 0x55 {
            Instr::Store { x }
        } else if kk == 0x65 {
            Instr::Load { x }
        } else {
            Instr::Unknown
        }
    } else {
        Instr::Unknown
    }
}

} // verus!
