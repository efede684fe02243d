//! Opcode decoder: maps a 16-bit big-endian instruction word to a tagged
//! operation value, or reports decode failure for unrecognized bit patterns.

use vstd::prelude::*;

verus! {

/// Variant selector for binary arithmetic between two registers
/// (the `8XYk` instruction family).
#[derive(Clone, Copy, PartialEq, Eq, Structural, Debug)]
pub enum Arith {
    Load,
    Or,
    And,
    XOr,
    Add,
    Sub,
    SubFlip,
    ShiftL,
    ShiftR,
}

/// Comparison selector for conditional skips.
#[derive(Clone, Copy, PartialEq, Eq, Structural, Debug)]
pub enum Cmp {
    Eq,
    NEq,
}

/// Second operand of a conditional skip: a register or an immediate byte.
#[derive(Clone, Copy, PartialEq, Eq, Structural, Debug)]
pub enum Arg {
    Reg(u8),
    Imm(u8),
}

/// A decoded operation. Register indices are 4-bit, addresses 12-bit.
#[derive(Clone, Copy, PartialEq, Eq, Structural, Debug)]
pub enum Op {
    /// Historic "system call" form `0NNN`; executes as a no-op.
    Sys(u16),
    Call(u16),
    Ret,
    Jump(u16),
    Skip(Cmp, u8, Arg),
    LoadImm(u8, u8),
    AddImm(u8, u8),
    Arith(Arith, u8, u8),
    LoadI(u16),
    AddI(u8),
    GetTimer(u8),
    SetTimer(u8),
    JumpV0(u16),
    Random(u8, u8),
    Hex(u8),
    StoreBCD(u8),
    Save(u8),
    Restore(u8),
    Draw(u8, u8, u8),
    ClearScr,
    SkipKey(Cmp, u8),
    WaitKey(u8),
    SetSound(u8),
}

/// Decode table over the canonical nibble layout: the top nibble selects the
/// family; the remaining nibbles supply a 12-bit address, an 8-bit immediate,
/// two 4-bit register indices, or a 4-bit sub-opcode.
pub open spec fn spec_decode(hi: u8, lo: u8) -> Option<Op> {
    let fam = hi >> 4;
    let x = hi & 0x0f;
    let y = lo >> 4;
    let n = lo & 0x0f;
    let nnn = (((hi & 0x0f) as u16) << 8) | (lo as u16);
    if fam == 0x0 {
        if hi == 0x00 && lo == 0xe0 {
            Some(Op::ClearScr)
        } else if hi == 0x00 && lo == 0xee {
            Some(Op::Ret)
        } else {
            Some(Op::Sys(nnn))
        }
    } else if fam == 0x1 {
        Some(Op::Jump(nnn))
    } else if fam == 0x2 {
        Some(Op::Call(nnn))
    } else if fam == 0x3 {
        Some(Op::Skip(Cmp::Eq, x, Arg::Imm(lo)))
    } else if fam == 0x4 {
        Some(Op::Skip(Cmp::NEq, x, Arg::Imm(lo)))
    } else if fam == 0x5 {
        if n == 0x0 {
            Some(Op::Skip(Cmp::Eq, x, Arg::Reg(y)))
        } else {
            None
        }
    } else if fam == 0x6 {
        Some(Op::LoadImm(x, lo))
    } else if fam == 0x7 {
        Some(Op::AddImm(x, lo))
    } else if fam == 0x8 {
        if n == 0x0 {
            Some(Op::Arith(Arith::Load, x, y))
        } else if n == 0x1 {
            Some(Op::Arith(Arith::Or, x, y))
        } else if n == 0x2 {
            Some(Op::Arith(Arith::And, x, y))
        } else if n == 0x3 {
            Some(Op::Arith(Arith::XOr, x, y))
        } else if n == 0x4 {
            Some(Op::Arith(Arith::Add, x, y))
        } else if n == 0x5 {
            Some(Op::Arith(Arith::Sub, x, y))
        } else if n == 0x6 {
            Some(Op::Arith(Arith::ShiftR, x, y))
        } else if n == 0x7 {
            Some(Op::Arith(Arith::SubFlip, x, y))
        } else if n == 0xe {
            Some(Op::Arith(Arith::ShiftL, x, y))
        } else {
            None
        }
    } else if fam == 0x9 {
        if n == 0x0 {
            Some(Op::Skip(Cmp::NEq, x, Arg::Reg(y)))
        } else {
            None
        }
    } else if fam == 0xa {
        Some(Op::LoadI(nnn))
    } else if fam == 0xb {
        Some(Op::JumpV0(nnn))
    } else if fam == 0xc {
        Some(Op::Random(x, lo))
    } else if fam == 0xd {
        Some(Op::Draw(x, y, n))
    } else if fam == 0xe {
        if lo == 0x9e {
            Some(Op::SkipKey(Cmp::Eq, x))
        } else if lo == 0xa1 {
            Some(Op::SkipKey(Cmp::NEq, x))
        } else {
            None
        }
    } else {
        if lo == 0x07 {
            Some(Op::GetTimer(x))
        } else if lo == 0x0a {
            Some(Op::WaitKey(x))
        } else if lo == 0x15 {
            Some(Op::SetTimer(x))
        } else if lo == 0x18 {
            Some(Op::SetSound(x))
        } else if lo == 0x1e {
            Some(Op::AddI(x))
        } else if lo == 0x29 {
            Some(Op::Hex(x))
        } else if lo == 0x33 {
            Some(Op::StoreBCD(x))
        } else if lo == 0x55 {
            Some(Op::Save(x))
        } else if lo == 0x65 {
            Some(Op::Restore(x))
        } else {
            None
        }
    }
}

/// Every field of a decoded operation is in range: register indices and row
/// counts are below 16, addresses below 0x1000.
pub open spec fn op_wf(op: Op) -> bool {
    match op {
        Op::Sys(a) => a < 0x1000,
        Op::Call(a) => a < 0x1000,
        Op::Ret => true,
        Op::Jump(a) => a < 0x1000,
        Op::Skip(_, vx, arg) => vx < 16 && (arg matches Arg::Reg(vy) ==> vy < 16),
        Op::LoadImm(vx, _) => vx < 16,
        Op::AddImm(vx, _) => vx < 16,
        Op::Arith(_, vx, vy) => vx < 16 && vy < 16,
        Op::LoadI(a) => a < 0x1000,
        Op::AddI(vx) => vx < 16,
        Op::GetTimer(vx) => vx < 16,
        Op::SetTimer(vx) => vx < 16,
        Op::JumpV0(a) => a < 0x1000,
        Op::Random(vx, _) => vx < 16,
        Op::Hex(vx) => vx < 16,
        Op::StoreBCD(vx) => vx < 16,
        Op::Save(vx) => vx < 16,
        Op::Restore(vx) => vx < 16,
        Op::Draw(vx, vy, n) => vx < 16 && vy < 16 && n < 16,
        Op::ClearScr => true,
        Op::SkipKey(_, vx) => vx < 16,
        Op::WaitKey(vx) => vx < 16,
        Op::SetSound(vx) => vx < 16,
    }
}

/// Decoding never produces an out-of-range field.
pub proof fn lemma_decode_wf(hi: u8, lo: u8)
    ensures
        spec_decode(hi, lo) matches Some(op) ==> op_wf(op),
{
    assert(hi & 0x0f < 16) by (bit_vector);
    assert(lo >> 4 < 16) by (bit_vector);
    assert(lo & 0x0f < 16) by (bit_vector);
    assert((((hi & 0x0f) as u16) << 8) | (lo as u16) < 0x1000) by (bit_vector);
}

/// Pure decoder over the two bytes of one instruction word (high byte
/// first). `None` reports an unrecognized bit pattern; callers decide
/// whether to halt or skip.
pub fn decode(hi: u8, lo: u8) -> (r: Option<Op>)
    ensures
        r == spec_decode(hi, lo),
{
    let fam = hi >> 4;
    let x = hi & 0x0f;
    let y = lo >> 4;
    let n = lo & 0x0f;
    let nnn = (((hi & 0x0f) as u16) << 8) | (lo as u16);
    if fam == 0x0 {
        if hi == 0x00 && lo == 0xe0 {
            Some(Op::ClearScr)
        } else if hi == 0x00 && lo == 0xee {
            Some(Op::Ret)
        } else {
            Some(Op::Sys(nnn))
        }
    } else if fam == 0x1 {
        Some(Op::Jump(nnn))
    } else if fam == 0x2 {
        Some(Op::Call(nnn))
    } else if fam == 0x3 {
        Some(Op::Skip(Cmp::Eq, x, Arg::Imm(lo)))
    } else if fam == 0x4 {
        Some(Op::Skip(Cmp::NEq, x, Arg::Imm(lo)))
    } else if fam == 0x5 {
        if n == 0x0 {
            Some(Op::Skip(Cmp::Eq, x, Arg::Reg(y)))
        } else {
            None
        }
    } else if fam == 0x6 {
        Some(Op::LoadImm(x, lo))
    } else if fam == 0x7 {
        Some(Op::AddImm(x, lo))
    } else if fam == 0x8 {
        if n == 0x0 {
            Some(Op::Arith(Arith::Load, x, y))
        } else if n == 0x1 {
            Some(Op::Arith(Arith::Or, x, y))
        } else if n == 0x2 {
            Some(Op::Arith(Arith::And, x, y))
        } else if n == 0x3 {
            Some(Op::Arith(Arith::XOr, x, y))
        } else if n == 0x4 {
            Some(Op::Arith(Arith::Add, x, y))
        } else if n == 0x5 {
            Some(Op::Arith(Arith::Sub, x, y))
        } else if n == 0x6 {
            Some(Op::Arith(Arith::ShiftR, x, y))
        } else if n == 0x7 {
            Some(Op::Arith(Arith::SubFlip, x, y))
        } else if n == 0xe {
            Some(Op::Arith(Arith::ShiftL, x, y))
        } else {
            None
        }
    } else if fam == 0x9 {
        if n == 0x0 {
            Some(Op::Skip(Cmp::NEq, x, Arg::Reg(y)))
        } else {
            None
        }
    } else if fam == 0xa {
        Some(Op::LoadI(nnn))
    } else if fam == 0xb {
        Some(Op::JumpV0(nnn))
    } else if fam == 0xc {
        Some(Op::Random(x, lo))
    } else if fam == 0xd {
        Some(Op::Draw(x, y, n))
    } else if fam == 0xe {
        if lo == 0x9e {
            Some(Op::SkipKey(Cmp::Eq, x))
        } else if lo == 0xa1 {
            Some(Op::SkipKey(Cmp::NEq, x))
        } else {
            None
        }
    } else {
        if lo == 0x07 {
            Some(Op::GetTimer(x))
        } else if lo == 0x0a {
            Some(Op::WaitKey(x))
        } else if lo == 0x15 {
            Some(Op::SetTimer(x))
        } else if lo == 0x18 {
            Some(Op::SetSound(x))
        } else if lo == 0x1e {
            Some(Op::AddI(x))
        } else if lo == 0x29 {
            Some(Op::Hex(x))
        } else if lo == 0x33 {
            Some(Op::StoreBCD(x))
        } else if lo == 0x55 {
            Some(Op::Save(x))
        } else if lo == 0x65 {
            Some(Op::Restore(x))
        } else {
            None
        }
    }
}

} // verus!
