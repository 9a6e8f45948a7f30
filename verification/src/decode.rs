//! Fetch and decode: a 16-bit instruction word is classified by its high
//! nibble into one of 16 primary groups; groups 0x0, 0x8, 0xE and 0xF are
//! further classified by their low byte or low nibble. Operand fields are
//! extracted arithmetically: X is bits 8-11, Y bits 4-7, NN the low byte,
//! N the low nibble and NNN the low 12 bits.
use vstd::prelude::*;
use crate::state::{State, MEMORY_SIZE};

verus! {

/// A decoded instruction. Register operands are always below 16, immediate
/// addresses below 4096, by construction of `decode`.
#[derive(Clone, Copy, Debug, PartialEq, Eq, Structural)]
pub enum Instr {
    /// 00E0: clear the framebuffer.
    ClearScreen,
    /// 00EE: return from a subroutine.
    Return,
    /// 1NNN: jump to NNN.
    Jump(u16),
    /// 2NNN: call the subroutine at NNN.
    Call(u16),
    /// 3XNN: skip the next instruction if VX == NN.
    SkipEqImm(u8, u8),
    /// 4XNN: skip the next instruction if VX != NN.
    SkipNeImm(u8, u8),
    /// 5XY0: skip the next instruction if VX == VY.
    SkipEqReg(u8, u8),
    /// 6XNN: VX := NN.
    SetImm(u8, u8),
    /// 7XNN: VX := VX + NN, wrapping, flag untouched.
    AddImm(u8, u8),
    /// 8XY0: VX := VY.
    CopyReg(u8, u8),
    /// 8XY1: VX := VX | VY.
    OrReg(u8, u8),
    /// 8XY2: VX := VX & VY.
    AndReg(u8, u8),
    /// 8XY3: VX := VX ^ VY.
    XorReg(u8, u8),
    /// 8XY4: VX := VX + VY wrapping; VF := 1 on carry out of 8 bits, else 0.
    AddReg(u8, u8),
    /// 8XY5: VX := VX - VY wrapping; VF := 1 if no borrow (VX >= VY), else 0.
    SubReg(u8, u8),
    /// 8XY6: VF := low bit of VX, then VX := VX >> 1. This crate reads the
    /// shift source from VX, one of the two historical conventions.
    ShiftRight(u8),
    /// 8XY7: VX := VY - VX wrapping; VF := 1 if no borrow (VY >= VX), else 0.
    SubRev(u8, u8),
    /// 8XYE: VF := high bit of VX as 0 or 1, then VX := VX << 1 wrapping.
    /// Reads the shift source from VX, as `ShiftRight` does.
    ShiftLeft(u8),
    /// 9XY0: skip the next instruction if VX != VY.
    SkipNeReg(u8, u8),
    /// ANNN: I := NNN.
    SetIndex(u16),
    /// BNNN: jump to NNN + V0, wrapped into the 12-bit address space.
    JumpV0(u16),
    /// CXNN: VX := random byte & NN.
    Random(u8, u8),
    /// DXYN: XOR-blit the N-row sprite at I onto the framebuffer at (VX, VY).
    Draw(u8, u8, u8),
    /// EX9E: skip the next instruction if the key indexed by the low
    /// nibble of VX is pressed.
    SkipKey(u8),
    /// EXA1: skip the next instruction if the key indexed by the low
    /// nibble of VX is not pressed.
    SkipNoKey(u8),
    /// FX07: VX := delay timer.
    ReadDelay(u8),
    /// FX0A: block until a key edge, then store the key index in VX.
    WaitKey(u8),
    /// FX15: delay timer := VX.
    SetDelay(u8),
    /// FX18: sound timer := VX.
    SetSound(u8),
    /// FX1E: I := I + VX, wrapped into the 12-bit address space.
    AddIndex(u8),
    /// FX29: I := address of the built-in glyph for the low nibble of VX.
    FontIndex(u8),
    /// FX33: store the decimal digits of VX at I, I+1, I+2.
    StoreBcd(u8),
    /// FX55: store V0..=VX to memory starting at I; I itself unchanged.
    StoreRegs(u8),
    /// FX65: load V0..=VX from memory starting at I; I itself unchanged.
    LoadRegs(u8),
    /// No known primary or secondary code matches: executed as a no-op that
    /// still advances the program counter, surfaced as a diagnostic.
    Unknown,
}

/// The X operand: bits 8-11 of the instruction word.
pub open spec fn op_x(op: u16) -> u8 {
    (((op / 0x100) % 0x10) as u8)
}

/// The Y operand: bits 4-7 of the instruction word.
pub open spec fn op_y(op: u16) -> u8 {
    (((op / 0x10) % 0x10) as u8)
}

/// The NN operand: the low byte of the instruction word.
pub open spec fn op_nn(op: u16) -> u8 {
    ((op % 0x100) as u8)
}

/// The N operand: the low nibble of the instruction word.
pub open spec fn op_n(op: u16) -> u8 {
    ((op % 0x10) as u8)
}

/// The NNN operand: the low 12 bits of the instruction word.
pub open spec fn op_nnn(op: u16) -> u16 {
    op % 0x1000
}

/// Classification of a 16-bit instruction word.
pub open spec fn decode(op: u16) -> Instr {
    let grp = op / 0x1000;
    let x = op_x(op);
    let y = op_y(op);
    let nn = op_nn(op);
    let n = op_n(op);
    let nnn = op_nnn(op);
    if grp == 0x0 {
        if nn == 0xE0 {
            Instr::ClearScreen
        } else if nn == 0xEE {
            Instr::Return
        } else {
            Instr::Unknown
        }
    } else if grp == 0x1 {
        Instr::Jump(nnn)
    } else if grp == 0x2 {
        Instr::Call(nnn)
    } else if grp == 0x3 {
        Instr::SkipEqImm(x, nn)
    } else if grp == 0x4 {
        Instr::SkipNeImm(x, nn)
    } else if grp == 0x5 {
        Instr::SkipEqReg(x, y)
    } else if grp == 0x6 {
        Instr::SetImm(x, nn)
    } else if grp == 0x7 {
        Instr::AddImm(x, nn)
    } else if grp == 0x8 {
        if n == 0x0 {
            Instr::CopyReg(x, y)
        } else if n == 0x1 {
            Instr::OrReg(x, y)
        } else if n == 0x2 {
            Instr::AndReg(x, y)
        } else if n == 0x3 {
            Instr::XorReg(x, y)
        } else if n == 0x4 {
            Instr::AddReg(x, y)
        } else if n == 0x5 {
            Instr::SubReg(x, y)
        } else if n == 0x6 {
            Instr::ShiftRight(x)
        } else if n == 0x7 {
            Instr::SubRev(x, y)
        } else if n == 0xE {
            Instr::ShiftLeft(x)
        } else {
            Instr::Unknown
        }
    } else if grp == 0x9 {
        Instr::SkipNeReg(x, y)
    } else if grp == 0xA {
        Instr::SetIndex(nnn)
    } else if grp == 0xB {
        Instr::JumpV0(nnn)
    } else if grp == 0xC {
        Instr::Random(x, nn)
    } else if grp == 0xD {
        Instr::Draw(x, y, n)
    } else if grp == 0xE {
        if nn == 0x9E {
            Instr::SkipKey(x)
        } else if nn == 0xA1 {
            Instr::SkipNoKey(x)
        } else {
            Instr::Unknown
        }
    } else {
        if nn == 0x07 {
            Instr::ReadDelay(x)
        } else if nn == 0x0A {
            Instr::WaitKey(x)
        } else if nn == 0x15 {
            Instr::SetDelay(x)
        } else if nn == 0x18 {
            Instr::SetSound(x)
        } else if nn == 0x1E {
            Instr::AddIndex(x)
        } else if nn == 0x29 {
            Instr::FontIndex(x)
        } else if nn == 0x33 {
            Instr::StoreBcd(x)
        } else if nn == 0x55 {
            Instr::StoreRegs(x)
        } else if nn == 0x65 {
            Instr::LoadRegs(x)
        } else {
            Instr::Unknown
        }
    }
}

/// The instruction word under the program counter: the byte at PC as the
/// high byte and the byte at PC+1 (wrapped into the address space) as the
/// low byte.
pub open spec fn fetched(s: State) -> u16 {
    ((s.memory[s.pc as int] as int) * 0x100 + s.memory[(s.pc + 1) % (MEMORY_SIZE as int)]) as u16
}

/// Executable decoder, proved to agree with `decode`.
pub fn decode_op(op: u16) -> (ins: Instr)
    ensures
        ins == decode(op),
{
    let grp = op / 0x1000;
    let x = ((op / 0x100) % 0x10) as u8;
    let y = ((op / 0x10) % 0x10) as u8;
    let nn = (op % 0x100) as u8;
    let n = (op % 0x10) as u8;
    let nnn = op % 0x1000;
    if grp == 0x0 {
        if nn == 0xE0 {
            Instr::ClearScreen
        } else if nn == 0xEE {
            Instr::Return
        } else {
            Instr::Unknown
        }
    } else if grp == 0x1 {
        Instr::Jump(nnn)
    } else if grp == 0x2 {
        Instr::Call(nnn)
    } else if grp == 0x3 {
        Instr::SkipEqImm(x, nn)
    } else if grp == 0x4 {
        Instr::SkipNeImm(x, nn)
    } else if grp == 0x5 {
        Instr::SkipEqReg(x, y)
    } else if grp == 0x6 {
        Instr::SetImm(x, nn)
    } else if grp == 0x7 {
        Instr::AddImm(x, nn)
    } else if grp == 0x8 {
        if n == 0x0 {
            Instr::CopyReg(x, y)
        } else if n == 0x1 {
            Instr::OrReg(x, y)
        } else if n == 0x2 {
            Instr::AndReg(x, y)
        } else if n == 0x3 {
            Instr::XorReg(x, y)
        } else if n == 0x4 {
            Instr::AddReg(x, y)
        } else if n == 0x5 {
            Instr::SubReg(x, y)
        } else if n == 0x6 {
            Instr::ShiftRight(x)
        } else if n == 0x7 {
            Instr::SubRev(x, y)
        } else if n == 0xE {
            Instr::ShiftLeft(x)
        } else {
            Instr::Unknown
        }
    } else if grp == 0x9 {
        Instr::SkipNeReg(x, y)
    } else if grp == 0xA {
        Instr::SetIndex(nnn)
    } else if grp == 0xB {
        Instr::JumpV0(nnn)
    } else if grp == 0xC {
        Instr::Random(x, nn)
    } else if grp == 0xD {
        Instr::Draw(x, y, n)
    } else if grp == 0xE {
        if nn == 0x9E {
            Instr::SkipKey(x)
        } else if nn == 0xA1 {
            Instr::SkipNoKey(x)
        } else {
            Instr::Unknown
        }
    } else {
        if nn == 0x07 {
            Instr::ReadDelay(x)
        } else if nn == 0x0A {
            Instr::WaitKey(x)
        } else if nn == 0x15 {
            Instr::SetDelay(x)
        } else if nn == 0x18 {
            Instr::SetSound(x)
        } else if nn == 0x1E {
            Instr::AddIndex(x)
        } else if nn == 0x29 {
            Instr::FontIndex(x)
        } else if nn == 0x33 {
            Instr::StoreBcd(x)
        } else if nn == 0x55 {
            Instr::StoreRegs(x)
        } else if nn == 0x65 {
            Instr::LoadRegs(x)
        } else {
            Instr::Unknown
        }
    }
}

/// Every operand embedded in a decoded instruction is in range: register
/// indices below 16, sprite heights below 16, addresses below 4096.
pub proof fn lemma_decode_operands(op: u16)
    ensures
        (match decode(op) {
            Instr::Jump(nnn) => nnn < 4096,
            Instr::Call(nnn) => nnn < 4096,
            Instr::SkipEqImm(x, _) => x < 16,
            Instr::SkipNeImm(x, _) => x < 16,
            Instr::SkipEqReg(x, y) => x < 16 && y < 16,
            Instr::SetImm(x, _) => x < 16,
            Instr::AddImm(x, _) => x < 16,
            Instr::CopyReg(x, y) => x < 16 && y < 16,
            Instr::OrReg(x, y) => x < 16 && y < 16,
            Instr::AndReg(x, y) => x < 16 && y < 16,
            Instr::XorReg(x, y) => x < 16 && y < 16,
            Instr::AddReg(x, y) => x < 16 && y < 16,
            Instr::SubReg(x, y) => x < 16 && y < 16,
            Instr::ShiftRight(x) => x < 16,
            Instr::SubRev(x, y) => x < 16 && y < 16,
            Instr::ShiftLeft(x) => x < 16,
            Instr::SkipNeReg(x, y) => x < 16 && y < 16,
            Instr::SetIndex(nnn) => nnn < 4096,
            Instr::JumpV0(nnn) => nnn < 4096,
            Instr::Random(x, _) => x < 16,
            Instr::Draw(x, y, n) => x < 16 && y < 16 && n < 16,
            Instr::SkipKey(x) => x < 16,
            Instr::SkipNoKey(x) => x < 16,
            Instr::ReadDelay(x) => x < 16,
            Instr::WaitKey(x) => x < 16,
            Instr::SetDelay(x) => x < 16,
            Instr::SetSound(x) => x < 16,
            Instr::AddIndex(x) => x < 16,
            Instr::FontIndex(x) => x < 16,
            Instr::StoreBcd(x) => x < 16,
            Instr::StoreRegs(x) => x < 16,
            Instr::LoadRegs(x) => x < 16,
            _ => true,
        }),
{
}

} // verus!
