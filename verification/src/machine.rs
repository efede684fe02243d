//! Mathematical model of the whole machine — CPU state together with the
//! host-owned RAM, pixel rows, keypad and sound — and the transition
//! functions that the executable engine in `cpu` is proved against.

use vstd::prelude::*;
use crate::opcodes::{Arg, Arith, Cmp, Op, spec_decode};
use crate::quirks::Quirks;
use crate::rng::{lfsr_byte, lfsr_next};

verus! {

/// Execution mode. `Running` fetches and executes one opcode per step; the
/// three waiting modes poll without consuming an instruction.
#[derive(Clone, Copy, PartialEq, Eq, Structural, Debug)]
pub enum State {
    Running,
    /// Waiting for a fresh key press: target register, baseline bitmask of
    /// keys counted as already down.
    WaitPress(u8, u16),
    /// Waiting for the held key (by index) to be released.
    WaitRelease(u8),
    /// Waiting for the next frame tick.
    WaitFrame,
}

/// A decode failure: the program counter the word was fetched from and its
/// two raw bytes. The embedding host decides whether to halt or skip.
#[derive(Clone, Copy, PartialEq, Eq, Structural, Debug)]
pub struct Fault {
    pub pc: u16,
    pub hi: u8,
    pub lo: u8,
}

/// The model state: CPU registers and mode plus the peripheral views.
#[verifier::ext_equal]
pub struct Machine {
    pub regs: Seq<u8>,
    pub ptr: u16,
    pub pc: u16,
    pub stack: Seq<u16>,
    pub sp: int,
    pub rnd: u16,
    pub timer: u8,
    pub state: State,
    pub quirks: Quirks,
    pub ram: Seq<u8>,
    pub rows: Seq<u64>,
    pub keys: u16,
    pub sound: u8,
}

/// Payload ranges of a waiting mode: register and key indices are nibbles.
pub open spec fn state_wf(s: State) -> bool {
    match s {
        State::WaitPress(vx, _) => vx < 16,
        State::WaitRelease(key) => key < 16,
        _ => true,
    }
}

/// Well-formed model: 16 registers, 16 stack slots, stack pointer in range,
/// full 16-bit RAM, 32 pixel rows, and a well-formed mode.
pub open spec fn m_wf(m: Machine) -> bool {
    &&& m.regs.len() == 16
    &&& m.stack.len() == 16
    &&& 0 <= m.sp < 16
    &&& m.ram.len() == 0x10000
    &&& m.rows.len() == 32
    &&& state_wf(m.state)
}

/// 16-bit wraparound of a (nonnegative) mathematical sum.
pub open spec fn wrap16(a: int) -> u16 {
    (a % 0x10000) as u16
}

/// 8-bit wraparound of a (nonnegative) mathematical sum.
pub open spec fn wrap8(a: int) -> u8 {
    (a % 256) as u8
}

/// Whether key number `key` is down in the bitmask `keys`.
pub open spec fn key_down(keys: u16, key: u8) -> bool {
    (keys >> (key as u16)) & 1 == 1
}

/// Index of the lowest set bit of `v`, or 16 when `v` is zero. This is the
/// "first newly pressed key" tie-break of the key-wait poll.
pub open spec fn low_bit16(v: u16) -> u8 {
    if v & 0x0001 != 0 {
        0
    } else if v & 0x0002 != 0 {
        1
    } else if v & 0x0004 != 0 {
        2
    } else if v & 0x0008 != 0 {
        3
    } else if v & 0x0010 != 0 {
        4
    } else if v & 0x0020 != 0 {
        5
    } else if v & 0x0040 != 0 {
        6
    } else if v & 0x0080 != 0 {
        7
    } else if v & 0x0100 != 0 {
        8
    } else if v & 0x0200 != 0 {
        9
    } else if v & 0x0400 != 0 {
        10
    } else if v & 0x0800 != 0 {
        11
    } else if v & 0x1000 != 0 {
        12
    } else if v & 0x2000 != 0 {
        13
    } else if v & 0x4000 != 0 {
        14
    } else if v & 0x8000 != 0 {
        15
    } else {
        16
    }
}

/// Value of a skip operand: a register's current value or an immediate.
pub open spec fn spec_eval(regs: Seq<u8>, arg: Arg) -> u8 {
    match arg {
        Arg::Reg(vx) => regs[vx as int],
        Arg::Imm(nn) => nn,
    }
}

/// The arithmetic unit (the `8XYk` operations): result and optional flag
/// for operand values `x` (destination register) and `y` (source register).
/// `None` means the flag register is left untouched.
pub open spec fn spec_arith(op: Arith, x: u8, y: u8, q: Quirks) -> (u8, Option<bool>) {
    match op {
        Arith::Load => (y, None),
        Arith::Or => (x | y, if q.reset_vf { Some(false) } else { None }),
        Arith::And => (x & y, if q.reset_vf { Some(false) } else { None }),
        Arith::XOr => (x ^ y, if q.reset_vf { Some(false) } else { None }),
        Arith::Add => (wrap8(x + y), Some(x + y > 255)),
        Arith::Sub => (wrap8(x - y + 256), Some(x >= y)),
        Arith::SubFlip => (wrap8(y - x + 256), Some(y >= x)),
        Arith::ShiftL => {
            let sel = if q.shift_vy { y } else { x };
            (sel << 1, Some(sel & 0x80 != 0))
        },
        Arith::ShiftR => {
            let sel = if q.shift_vy { y } else { x };
            (sel >> 1, Some(sel & 0x01 != 0))
        },
    }
}

/// The byte `b` with its bits reversed, so that the sprite's leftmost pixel
/// (bit 7 of the sprite byte) lands on the lowest — leftmost — screen bit.
pub open spec fn rev8(b: u8) -> u8 {
    ((b >> 7) & 1) | (((b >> 6) & 1) << 1) | (((b >> 5) & 1) << 2) | (((b >> 4) & 1) << 3) | (((b
        >> 3) & 1) << 4) | (((b >> 2) & 1) << 5) | (((b >> 1) & 1) << 6) | (((b >> 0) & 1) << 7)
}

/// `v` rotated left by `k < 64` bits.
pub open spec fn rotl64(v: u64, k: u8) -> u64
    recommends
        k < 64,
{
    if k == 0 {
        v
    } else {
        (v << (k as u64)) | (v >> ((64 - k) as u64))
    }
}

/// One sprite row byte positioned at bit offset `xd` within a full-width
/// row. Under clipping, bits pushed past the right edge are dropped; under
/// wrapping they reappear at the left edge.
pub open spec fn place_row(dat: u8, xd: u8, clip: bool) -> u64
    recommends
        xd < 64,
{
    let base = rev8(dat) as u64;
    if clip {
        base << (xd as u64)
    } else {
        rotl64(base, xd)
    }
}

/// Screen rows and accumulated collision flag after the first `k` sprite
/// rows of a draw: sprite data at `ptr`, bit offset `xd`, first target row
/// `yd0`. A target row past the bottom edge ends the draw under clipping
/// and wraps around otherwise.
pub open spec fn spec_draw(
    rows: Seq<u64>,
    ram: Seq<u8>,
    ptr: u16,
    xd: u8,
    yd0: u8,
    clip: bool,
    k: nat,
) -> (Seq<u64>, bool)
    decreases k,
{
    if k == 0 {
        (rows, false)
    } else {
        let prev = spec_draw(rows, ram, ptr, xd, yd0, clip, (k - 1) as nat);
        let i = k - 1;
        if clip && yd0 + i > 31 {
            prev
        } else {
            let yd = (yd0 + i) % 32;
            let dat = ram[wrap16(ptr + i) as int];
            let placed = place_row(dat, xd, clip);
            (prev.0.update(yd, prev.0[yd] ^ placed), prev.1 || (prev.0[yd] & placed != 0u64))
        }
    }
}

/// Once a clipped draw has run past the bottom edge, the remaining sprite
/// rows change nothing: ending the draw there equals skipping each of them.
pub proof fn lemma_draw_clip_stable(
    rows: Seq<u64>,
    ram: Seq<u8>,
    ptr: u16,
    xd: u8,
    yd0: u8,
    i0: nat,
    k: nat,
)
    requires
        yd0 + i0 > 31,
        i0 <= k,
    ensures
        spec_draw(rows, ram, ptr, xd, yd0, true, k) == spec_draw(rows, ram, ptr, xd, yd0, true, i0),
    decreases k,
{
    if k > i0 {
        lemma_draw_clip_stable(rows, ram, ptr, xd, yd0, i0, (k - 1) as nat);
    }
}

/// RAM after dumping registers `0..k` to consecutive addresses at `ptr`.
pub open spec fn spec_save(ram: Seq<u8>, regs: Seq<u8>, ptr: u16, k: nat) -> Seq<u8>
    decreases k,
{
    if k == 0 {
        ram
    } else {
        spec_save(ram, regs, ptr, (k - 1) as nat).update(
            wrap16(ptr + (k - 1)) as int,
            regs[k - 1],
        )
    }
}

/// Registers after loading `0..k` of them from consecutive addresses at
/// `ptr`.
pub open spec fn spec_restore(regs: Seq<u8>, ram: Seq<u8>, ptr: u16, k: nat) -> Seq<u8>
    decreases k,
{
    if k == 0 {
        regs
    } else {
        spec_restore(regs, ram, ptr, (k - 1) as nat).update(
            (k - 1) as int,
            ram[wrap16(ptr + (k - 1)) as int],
        )
    }
}

/// Effect of one decoded operation on the machine; the program counter has
/// already been advanced past the instruction word.
pub open spec fn spec_exec_op(m: Machine, op: Op) -> Machine {
    match op {
        Op::Sys(_) => m,
        Op::Call(a) => Machine {
            stack: m.stack.update(m.sp, m.pc),
            sp: (m.sp + 1) % 16,
            pc: a,
            ..m
        },
        Op::Ret => {
            let sp2 = (m.sp + 15) % 16;
            Machine { sp: sp2, pc: m.stack[sp2], ..m }
        },
        Op::Jump(a) => Machine { pc: a, ..m },
        Op::Skip(when, vx, arg) => {
            let x = m.regs[vx as int];
            let y = spec_eval(m.regs, arg);
            let hit = match when {
                Cmp::Eq => x == y,
                Cmp::NEq => x != y,
            };
            if hit {
                Machine { pc: wrap16(m.pc + 2), ..m }
            } else {
                m
            }
        },
        Op::LoadImm(vx, imm) => Machine { regs: m.regs.update(vx as int, imm), ..m },
        Op::AddImm(vx, imm) => Machine {
            regs: m.regs.update(vx as int, wrap8(m.regs[vx as int] + imm)),
            ..m
        },
        Op::Arith(aop, vx, vy) => {
            let r = spec_arith(aop, m.regs[vx as int], m.regs[vy as int], m.quirks);
            let regs1 = m.regs.update(vx as int, r.0);
            let regs2 = match r.1 {
                Some(b) => regs1.update(15, if b { 1u8 } else { 0u8 }),
                None => regs1,
            };
            Machine { regs: regs2, ..m }
        },
        Op::LoadI(a) => Machine { ptr: a, ..m },
        Op::AddI(vx) => {
            let a = wrap16(m.ptr + m.regs[vx as int]);
            Machine {
                regs: m.regs.update(15, if a > 0x0fff { 1u8 } else { 0u8 }),
                ptr: a & 0x0fff,
                ..m
            }
        },
        Op::GetTimer(vx) => Machine { regs: m.regs.update(vx as int, m.timer), ..m },
        Op::SetTimer(vx) => Machine { timer: m.regs[vx as int], ..m },
        Op::JumpV0(a) => Machine { pc: wrap16(a + m.regs[0]), ..m },
        Op::Random(vx, mask) => Machine {
            rnd: lfsr_next(m.rnd),
            regs: m.regs.update(vx as int, lfsr_byte(m.rnd) & mask),
            ..m
        },
        Op::Hex(vx) => Machine { ptr: ((m.regs[vx as int] & 0x0f) as u16) << 3, ..m },
        Op::StoreBCD(vx) => {
            let x = m.regs[vx as int];
            let ram1 = m.ram.update(m.ptr as int, ((x as int) / 100) as u8).update(
                wrap16(m.ptr + 1) as int,
                (((x as int) % 100) / 10) as u8,
            ).update(wrap16(m.ptr + 2) as int, ((x as int) % 10) as u8);
            Machine {
                ram: ram1,
                ptr: if m.quirks.increment_ptr {
                    wrap16(m.ptr + 3)
                } else {
                    m.ptr
                },
                ..m
            }
        },
        Op::Save(vx) => Machine {
            ram: spec_save(m.ram, m.regs, m.ptr, (vx + 1) as nat),
            ptr: if m.quirks.increment_ptr {
                wrap16(m.ptr + 3)
            } else {
                m.ptr
            },
            ..m
        },
        Op::Restore(vx) => Machine {
            regs: spec_restore(m.regs, m.ram, m.ptr, (vx + 1) as nat),
            ptr: if m.quirks.increment_ptr {
                wrap16(m.ptr + 3)
            } else {
                m.ptr
            },
            ..m
        },
        Op::Draw(vx, vy, n) => {
            let xd = m.regs[vx as int] & 0x3f;
            let yd0 = m.regs[vy as int] & 0x1f;
            let dr = spec_draw(m.rows, m.ram, m.ptr, xd, yd0, m.quirks.clip_sprites, n as nat);
            Machine {
                rows: dr.0,
                regs: m.regs.update(15, if dr.1 { 1u8 } else { 0u8 }),
                state: if m.quirks.video_wait { State::WaitFrame } else { m.state },
                ..m
            }
        },
        Op::ClearScr => Machine {
            rows: Seq::new(32, |_j: int| 0u64),
            state: if m.quirks.video_wait { State::WaitFrame } else { m.state },
            ..m
        },
        Op::SkipKey(when, vx) => {
            let pressed = key_down(m.keys, m.regs[vx as int] & 0x0f);
            let want = match when {
                Cmp::Eq => true,
                Cmp::NEq => false,
            };
            if pressed == want {
                Machine { pc: wrap16(m.pc + 2), ..m }
            } else {
                m
            }
        },
        Op::WaitKey(vx) => Machine { state: State::WaitPress(vx, 0xffff), ..m },
        Op::SetSound(vx) => Machine { sound: m.regs[vx as int], ..m },
    }
}

/// One full running-mode cycle: fetch the word at the program counter,
/// advance past it, then execute — or report the undecodable word. Even a
/// fault leaves the program counter advanced, so the host may skip.
pub open spec fn spec_fetch_exec(m: Machine) -> (Machine, Option<Fault>) {
    let hi = m.ram[m.pc as int];
    let lo = m.ram[wrap16(m.pc + 1) as int];
    let m2 = Machine { pc: wrap16(m.pc + 2), ..m };
    match spec_decode(hi, lo) {
        Some(op) => (spec_exec_op(m2, op), None),
        None => (m2, Some(Fault { pc: m.pc, hi, lo })),
    }
}

/// One poll while waiting for a key press: a key down now but not in the
/// baseline is a fresh press — the lowest such index is written to the
/// target register and its release is awaited; otherwise the baseline is
/// replaced by the current bitmask.
pub open spec fn spec_poll_press(m: Machine, vx: u8, prev: u16) -> Machine {
    let fresh = m.keys & !prev;
    if fresh != 0 {
        let k = low_bit16(fresh);
        Machine { regs: m.regs.update(vx as int, k), state: State::WaitRelease(k), ..m }
    } else {
        Machine { state: State::WaitPress(vx, m.keys), ..m }
    }
}

/// One poll while waiting for a key release: running again once the held
/// key is up.
pub open spec fn spec_poll_release(m: Machine, key: u8) -> Machine {
    if key_down(m.keys, key) {
        m
    } else {
        Machine { state: State::Running, ..m }
    }
}

/// One "step" call: at most one opcode while running, one bounded poll
/// while blocked. No waiting mode advances the program counter.
pub open spec fn spec_step(m: Machine) -> (Machine, Option<Fault>) {
    match m.state {
        State::Running => spec_fetch_exec(m),
        State::WaitFrame => (m, None),
        State::WaitPress(vx, prev) => (spec_poll_press(m, vx, prev), None),
        State::WaitRelease(key) => (spec_poll_release(m, key), None),
    }
}

/// One frame tick: the delay timer counts down to its floor at zero, the
/// random source advances, and a frame wait is released.
pub open spec fn spec_tick_frame(m: Machine) -> Machine {
    Machine {
        timer: if m.timer > 0 { (m.timer - 1) as u8 } else { 0u8 },
        rnd: lfsr_next(m.rnd),
        state: if m.state is WaitFrame { State::Running } else { m.state },
        ..m
    }
}

} // verus!
