//! The execution engine: CPU state, the arithmetic unit, the pseudo-random
//! source, and the step/tick entry points, all proved against the model
//! transitions in `machine`.

use vstd::prelude::*;
use crate::machine::{
    Fault, Machine, State, lemma_draw_clip_stable, low_bit16, place_row, rev8, spec_arith,
    spec_draw, spec_eval, spec_exec_op, spec_fetch_exec, spec_poll_press, spec_poll_release,
    spec_restore, spec_save, spec_step, state_wf, wrap16, wrap8,
};
use crate::opcodes::{Arg, Arith, Cmp, Op, decode, lemma_decode_wf, op_wf};
use crate::peripherals::Peripherals;
use crate::quirks::Quirks;
use crate::rng::{RNG_SEED, lfsr_byte, lfsr_next};

verus! {

/// `wrapping_add` on `u16` agrees with the model's 16-bit wraparound.
proof fn lemma_wadd16(a: u16, b: u16)
    ensures
        a.wrapping_add(b) == wrap16(a + b),
{
    if a + b > 0xffff {
        assert((a + b) % 0x10000 == a + b - 0x10000) by (nonlinear_arith)
            requires
                0x10000 <= a + b < 0x20000,
        ;
    } else {
        assert((a + b) % 0x10000 == a + b) by (nonlinear_arith)
            requires
                0 <= a + b < 0x10000,
        ;
    }
}

/// `wrapping_add` on `u8` agrees with the model's 8-bit wraparound.
proof fn lemma_wadd8(a: u8, b: u8)
    ensures
        a.wrapping_add(b) == wrap8(a + b),
{
    if a + b > 0xff {
        assert((a + b) % 0x100 == a + b - 0x100) by (nonlinear_arith)
            requires
                0x100 <= a + b < 0x200,
        ;
    } else {
        assert((a + b) % 0x100 == a + b) by (nonlinear_arith)
            requires
                0 <= a + b < 0x100,
        ;
    }
}

/// Index of the lowest set bit, or 16 for zero.
fn lowest_set_bit(v: u16) -> (r: u8)
    ensures
        r == low_bit16(v),
{
    if v & 0x0001 != 0 {
        0
    } else if v & 0x0002 != 0 {
        1
    } else if v & 0x0004 != 0 {
        2
    } else if v & 0x0008 != 0 {
        3
    } else if v & 0x0010 != 0 {
        4
    } else if v & 0x0020 != 0 {
        5
    } else if v & 0x0040 != 0 {
        6
    } else if v & 0x0080 != 0 {
        7
    } else if v & 0x0100 != 0 {
        8
    } else if v & 0x0200 != 0 {
        9
    } else if v & 0x0400 != 0 {
        10
    } else if v & 0x0800 != 0 {
        11
    } else if v & 0x1000 != 0 {
        12
    } else if v & 0x2000 != 0 {
        13
    } else if v & 0x4000 != 0 {
        14
    } else if v & 0x8000 != 0 {
        15
    } else {
        16
    }
}

/// The byte with its bits reversed.
fn bit_reverse(b: u8) -> (r: u8)
    ensures
        r == rev8(b),
{
    ((b >> 7) & 1) | (((b >> 6) & 1) << 1) | (((b >> 5) & 1) << 2) | (((b >> 4) & 1) << 3) | (((b
        >> 3) & 1) << 4) | (((b >> 2) & 1) << 5) | (((b >> 1) & 1) << 6) | (((b >> 0) & 1) << 7)
}

/// CPU state: 16 registers (register 15 doubles as the flag register), the
/// pointer register, program counter, 16-slot call stack, delay timer, LFSR
/// state, execution mode, and the instance's quirk configuration.
pub struct CPU {
    pub regs: [u8; 16],
    pub ptr: u16,
    pub pc: u16,
    pub stack: [u16; 16],
    pub sp: usize,
    pub rnd: u16,
    pub timer: u8,
    pub state: State,
    pub quirks: Quirks,
}

impl CPU {
    /// Structural invariant: stack pointer in range, mode payloads in range.
    pub open spec fn wf(self) -> bool {
        self.sp < 16 && state_wf(self.state)
    }

    /// The machine model made of this CPU together with a host's state.
    pub open spec fn mach<P: Peripherals>(self, io: P) -> Machine {
        Machine {
            regs: self.regs@,
            ptr: self.ptr,
            pc: self.pc,
            stack: self.stack@,
            sp: self.sp as int,
            rnd: self.rnd,
            timer: self.timer,
            state: self.state,
            quirks: self.quirks,
            ram: io.ram(),
            rows: io.rows(),
            keys: io.keys(),
            sound: io.sound(),
        }
    }

    /// Machine reset: all registers and the pointer zero, program counter at
    /// 0x0200, stack empty, timer zero, random source at its fixed seed,
    /// mode Running, with the given quirk configuration for life.
    pub fn new(quirks: Quirks) -> (cpu: CPU)
        ensures
            cpu.wf(),
            forall|j: int| 0 <= j < 16 ==> cpu.regs@[j] == 0,
            cpu.ptr == 0,
            cpu.pc == 0x200,
            forall|j: int| 0 <= j < 16 ==> cpu.stack@[j] == 0,
            cpu.sp == 0,
            cpu.rnd == RNG_SEED,
            cpu.timer == 0,
            cpu.state == State::Running,
            cpu.quirks == quirks,
    {
        CPU {
            regs: [0;16],
            ptr: 0,
            pc: 0x200,
            stack: [0;16],
            sp: 0,
            rnd: RNG_SEED,
            timer: 0,
            state: State::Running,
            quirks,
        }
    }

    /// One frame tick: decrement the delay timer (floor at zero), advance
    /// the random source, and release a pending frame wait. Nothing else
    /// changes; in particular the program counter stays put.
    pub fn tick_frame(&mut self)
        ensures
            final(self).timer == (if old(self).timer > 0 {
                (old(self).timer - 1) as u8
            } else {
                0u8
            }),
            final(self).rnd == lfsr_next(old(self).rnd),
            final(self).state == (if old(self).state is WaitFrame {
                State::Running
            } else {
                old(self).state
            }),
            final(self).regs == old(self).regs,
            final(self).ptr == old(self).ptr,
            final(self).pc == old(self).pc,
            final(self).stack == old(self).stack,
            final(self).sp == old(self).sp,
            final(self).quirks == old(self).quirks,
    {
        if self.timer > 0 {
            self.timer = self.timer - 1;
        }
        self.next_random();

        if let State::WaitFrame = self.state {
            self.state = State::Running;
        }
    }

    /// Value of a skip operand against the current registers.
    fn eval(&self, arg: Arg) -> (r: u8)
        requires
            arg matches Arg::Reg(vx) ==> vx < 16,
        ensures
            r == spec_eval(self.regs@, arg),
    {
        match arg {
            Arg::Reg(vx) => self.regs[vx as usize],
            Arg::Imm(nn) => nn,
        }
    }

    /// The arithmetic unit: result and optional flag for the two operand
    /// values, under this instance's quirks. In particular, for every pair
    /// of operand bytes: Sub's flag is set iff no borrow occurred (x >= y),
    /// the flipped Sub's iff y >= x, and a shift's flag is the bit shifted
    /// out of the quirk-selected operand.
    pub fn arith(&self, op: Arith, x: u8, y: u8) -> (r: (u8, Option<bool>))
        ensures
            r == spec_arith(op, x, y, self.quirks),
    {
        match op {
            Arith::Load => (y, None),
            Arith::Or => (x | y, if self.quirks.reset_vf { Some(false) } else { None }),
            Arith::And => (x & y, if self.quirks.reset_vf { Some(false) } else { None }),
            Arith::XOr => (x ^ y, if self.quirks.reset_vf { Some(false) } else { None }),
            Arith::Add => {
                let s: u16 = x as u16 + y as u16;
                if s > 255 {
                    (((s - 256) as u8), Some(true))
                } else {
                    ((s as u8), Some(false))
                }
            },
            Arith::Sub => {
                if x >= y {
                    ((x - y), Some(true))
                } else {
                    (((x as u16 + 256 - y as u16) as u8), Some(false))
                }
            },
            Arith::SubFlip => {
                if y >= x {
                    ((y - x), Some(true))
                } else {
                    (((y as u16 + 256 - x as u16) as u8), Some(false))
                }
            },
            Arith::ShiftL => {
                let sel = if self.quirks.shift_vy { y } else { x };
                (sel << 1, Some(sel & 0x80 != 0))
            },
            Arith::ShiftR => {
                let sel = if self.quirks.shift_vy { y } else { x };
                (sel >> 1, Some(sel & 0x01 != 0))
            },
        }
    }

    /// Writes the carry/borrow/collision flag. Always targets register 15,
    /// whatever the instruction's destination register was.
    fn set_flag(&mut self, flag: bool)
        ensures
            final(self).regs@ == old(self).regs@.update(15, if flag { 1u8 } else { 0u8 }),
            final(self).ptr == old(self).ptr,
            final(self).pc == old(self).pc,
            final(self).stack == old(self).stack,
            final(self).sp == old(self).sp,
            final(self).rnd == old(self).rnd,
            final(self).timer == old(self).timer,
            final(self).state == old(self).state,
            final(self).quirks == old(self).quirks,
    {
        self.regs[15] = if flag { 1 } else { 0 };
    }

    /// One LFSR advance; returns the produced byte.
    pub fn next_random(&mut self) -> (r: u8)
        ensures
            r == lfsr_byte(old(self).rnd),
            final(self).rnd == lfsr_next(old(self).rnd),
            final(self).regs == old(self).regs,
            final(self).ptr == old(self).ptr,
            final(self).pc == old(self).pc,
            final(self).stack == old(self).stack,
            final(self).sp == old(self).sp,
            final(self).timer == old(self).timer,
            final(self).state == old(self).state,
            final(self).quirks == old(self).quirks,
    {
        let ghost s0 = self.rnd;
        let lsb = self.rnd & 1 != 0;
        proof {
            assert((s0 & 1 != 0) == (s0 & 1 == 1)) by (bit_vector);
        }
        self.rnd = self.rnd >> 1;
        if lsb {
            self.rnd = self.rnd ^ 0xb400;
        }
        proof {
            assert(self.rnd == lfsr_next(s0));
            let s1 = lfsr_next(s0);
            assert(s1 & 0xff < 256) by (bit_vector);
        }
        (self.rnd & 0xff) as u8
    }

    /// One "step" call: while running, fetch, decode and execute exactly one
    /// instruction (reporting a fault for an undecodable word); while
    /// blocked, perform one bounded poll without consuming an instruction
    /// or advancing the program counter.
    pub fn step<P: Peripherals>(&mut self, io: &mut P) -> (r: Result<(), Fault>)
        requires
            old(self).wf(),
            old(io).ram().len() == 0x10000,
            old(io).rows().len() == 32,
        ensures
            final(self).wf(),
            final(io).ram().len() == 0x10000,
            final(io).rows().len() == 32,
            ({
                let sm = spec_step(old(self).mach(*old(io)));
                &&& final(self).mach(*final(io)) == sm.0
                &&& r == (match sm.1 {
                    Some(f) => Err::<(), Fault>(f),
                    None => Ok::<(), Fault>(()),
                })
            }),
    {
        let ghost m0 = self.mach(*io);
        match self.state {
            State::Running => self.exec(io),
            State::WaitFrame => Ok(()),
            State::WaitPress(vx, prev) => {
                let new_state = io.get_keys();
                let fresh = new_state & !prev;
                let idx = lowest_set_bit(fresh);
                proof {
                    assert((low_bit16(fresh) < 16) == (fresh != 0)) by (bit_vector);
                }
                if idx < 16 {
                    self.regs[vx as usize] = idx;
                    self.state = State::WaitRelease(idx);
                } else {
                    self.state = State::WaitPress(vx, new_state);
                }
                proof {
                    assert(self.mach(*io) =~= spec_poll_press(m0, vx, prev));
                }
                Ok(())
            },
            State::WaitRelease(key) => {
                let keys = io.get_keys();
                let pressed = (keys >> (key as u16)) & 1 == 1;
                if !pressed {
                    self.state = State::Running;
                }
                proof {
                    assert(self.mach(*io) =~= spec_poll_release(m0, key));
                }
                Ok(())
            },
        }
    }

    /// One full running-mode cycle: fetch the two bytes at the program
    /// counter, advance past them, decode, and execute. An unrecognized
    /// word is reported with its address and raw bytes; the program counter
    /// is left advanced either way, so the host chooses halt or skip.
    pub fn exec<P: Peripherals>(&mut self, io: &mut P) -> (r: Result<(), Fault>)
        requires
            old(self).wf(),
            old(io).ram().len() == 0x10000,
            old(io).rows().len() == 32,
        ensures
            final(self).wf(),
            final(io).ram().len() == 0x10000,
            final(io).rows().len() == 32,
            ({
                let sm = spec_fetch_exec(old(self).mach(*old(io)));
                &&& final(self).mach(*final(io)) == sm.0
                &&& r == (match sm.1 {
                    Some(f) => Err::<(), Fault>(f),
                    None => Ok::<(), Fault>(()),
                })
            }),
    {
        let ghost m0 = self.mach(*io);
        let pc0 = self.pc;
        let hi = io.read_ram(self.pc);
        let lo = io.read_ram(self.pc.wrapping_add(1));
        proof {
            lemma_wadd16(pc0, 1);
            lemma_wadd16(pc0, 2);
        }
        self.pc = self.pc.wrapping_add(2);
        match decode(hi, lo) {
            None => {
                proof {
                    assert(self.mach(*io) =~= spec_fetch_exec(m0).0);
                }
                Err(Fault { pc: pc0, hi, lo })
            },
            Some(op) => {
                proof {
                    lemma_decode_wf(hi, lo);
                    assert(self.mach(*io) =~= (Machine { pc: wrap16(m0.pc + 2), ..m0 }));
                }
                self.exec_op(io, op);
                Ok(())
            },
        }
    }

    /// Executes one decoded operation; the program counter has already been
    /// advanced past the instruction word.
    fn exec_op<P: Peripherals>(&mut self, io: &mut P, op: Op)
        requires
            old(self).wf(),
            op_wf(op),
            old(io).ram().len() == 0x10000,
            old(io).rows().len() == 32,
        ensures
            final(self).wf(),
            final(io).ram().len() == 0x10000,
            final(io).rows().len() == 32,
            final(self).mach(*final(io)) == spec_exec_op(old(self).mach(*old(io)), op),
    {
        let ghost m0 = self.mach(*io);
        match op {
            Op::Sys(_a) => {},
            Op::Call(a) => {
                self.stack[self.sp] = self.pc;
                self.sp = (self.sp + 1) % 16;
                self.pc = a;
                proof {
                    assert(self.mach(*io) =~= spec_exec_op(m0, op));
                }
            },
            Op::Ret => {
                self.sp = (self.sp + 15) % 16;
                self.pc = self.stack[self.sp];
                proof {
                    assert(self.mach(*io) =~= spec_exec_op(m0, op));
                }
            },
            Op::Jump(a) => {
                self.pc = a;
            },
            Op::Skip(when, vx, target) => {
                let x = self.regs[vx as usize];
                let y = self.eval(target);
                let hit = match when {
                    Cmp::Eq => x == y,
                    Cmp::NEq => x != y,
                };
                if hit {
                    proof {
                        lemma_wadd16(self.pc, 2);
                    }
                    self.pc = self.pc.wrapping_add(2);
                }
                proof {
                    assert(self.mach(*io) =~= spec_exec_op(m0, op));
                }
            },
            Op::LoadImm(vx, imm) => {
                self.regs[vx as usize] = imm;
                proof {
                    assert(self.mach(*io) =~= spec_exec_op(m0, op));
                }
            },
            Op::AddImm(vx, imm) => {
                let xv = self.regs[vx as usize];
                proof {
                    lemma_wadd8(xv, imm);
                }
                self.regs[vx as usize] = xv.wrapping_add(imm);
                proof {
                    assert(self.mach(*io) =~= spec_exec_op(m0, op));
                }
            },
            Op::Arith(aop, vx, vy) => {
                let x = self.regs[vx as usize];
                let y = self.regs[vy as usize];
                let zf = self.arith(aop, x, y);
                self.regs[vx as usize] = zf.0;
                match zf.1 {
                    Some(b) => self.set_flag(b),
                    None => {},
                }
                proof {
                    assert(self.mach(*io) =~= spec_exec_op(m0, op));
                }
            },
            Op::LoadI(a) => {
                self.ptr = a;
            },
            Op::AddI(vx) => {
                let xv = self.regs[vx as usize];
                proof {
                    lemma_wadd16(self.ptr, xv as u16);
                }
                let a = self.ptr.wrapping_add(xv as u16);
                self.set_flag(a > 0x0fff);
                self.ptr = a & 0x0fff;
                proof {
                    assert(self.mach(*io) =~= spec_exec_op(m0, op));
                }
            },
            Op::GetTimer(vx) => {
                self.regs[vx as usize] = self.timer;
                proof {
                    assert(self.mach(*io) =~= spec_exec_op(m0, op));
                }
            },
            Op::SetTimer(vx) => {
                self.timer = self.regs[vx as usize];
            },
            Op::JumpV0(a) => {
                let t = a + self.regs[0] as u16;
                proof {
                    lemma_wrap16_small(t as int);
                }
                self.pc = t;
                proof {
                    assert(self.mach(*io) =~= spec_exec_op(m0, op));
                }
            },
            Op::Random(vx, mask) => {
                let b = self.next_random();
                self.regs[vx as usize] = b & mask;
                proof {
                    assert(self.mach(*io) =~= spec_exec_op(m0, op));
                }
            },
            Op::Hex(vx) => {
                self.ptr = ((self.regs[vx as usize] & 0x0f) as u16) << 3;
                proof {
                    assert(self.mach(*io) =~= spec_exec_op(m0, op));
                }
            },
            Op::StoreBCD(vx) => {
                self.op_store_bcd(io, vx);
            },
            Op::Save(vx) => {
                self.op_save(io, vx);
            },
            Op::Restore(vx) => {
                self.op_restore(io, vx);
            },
            Op::Draw(vx, vy, n) => {
                self.op_draw(io, vx, vy, n);
            },
            Op::ClearScr => {
                self.op_clear(io);
            },
            Op::SkipKey(when, vx) => {
                let key = (self.regs[vx as usize] & 0x0f) as u16;
                proof {
                    let rv = m0.regs[vx as int];
                    assert(rv & 0x0f < 16) by (bit_vector);
                }
                let keys = io.get_keys();
                let pressed = (keys >> key) & 1 == 1;
                let want = match when {
                    Cmp::Eq => true,
                    Cmp::NEq => false,
                };
                if pressed == want {
                    proof {
                        lemma_wadd16(self.pc, 2);
                    }
                    self.pc = self.pc.wrapping_add(2);
                }
                proof {
                    assert(self.mach(*io) =~= spec_exec_op(m0, op));
                }
            },
            Op::WaitKey(vx) => {
                self.state = State::WaitPress(vx, 0xffff);
                proof {
                    assert(self.mach(*io) =~= spec_exec_op(m0, op));
                }
            },
            Op::SetSound(vx) => {
                io.set_sound(self.regs[vx as usize]);
                proof {
                    assert(self.mach(*io) =~= spec_exec_op(m0, op));
                }
            },
        }
    }

    /// Writes the value of the named register as three decimal digit bytes
    /// (hundreds, tens, ones) at the pointer; the pointer advances by 3
    /// under the auto-increment quirk.
    fn op_store_bcd<P: Peripherals>(&mut self, io: &mut P, vx: u8)
        requires
            old(self).wf(),
            vx < 16,
            old(io).ram().len() == 0x10000,
            old(io).rows().len() == 32,
        ensures
            final(self).wf(),
            final(io).ram().len() == 0x10000,
            final(io).rows().len() == 32,
            final(self).mach(*final(io)) == spec_exec_op(
                old(self).mach(*old(io)),
                Op::StoreBCD(vx),
            ),
    {
        let ghost m0 = self.mach(*io);
        let x = self.regs[vx as usize];
        proof {
            lemma_wadd16(self.ptr, 1);
            lemma_wadd16(self.ptr, 2);
        }
        io.write_ram(self.ptr, x / 100);
        io.write_ram(self.ptr.wrapping_add(1), (x % 100) / 10);
        io.write_ram(self.ptr.wrapping_add(2), x % 10);
        if self.quirks.increment_ptr {
            proof {
                lemma_wadd16(self.ptr, 3);
            }
            self.ptr = self.ptr.wrapping_add(3);
        }
        proof {
            assert(self.mach(*io) =~= spec_exec_op(m0, Op::StoreBCD(vx)));
        }
    }

    /// Dumps registers 0 through `vx` inclusive to consecutive addresses at
    /// the pointer; the pointer advances by 3 under the auto-increment
    /// quirk.
    fn op_save<P: Peripherals>(&mut self, io: &mut P, vx: u8)
        requires
            old(self).wf(),
            vx < 16,
            old(io).ram().len() == 0x10000,
            old(io).rows().len() == 32,
        ensures
            final(self).wf(),
            final(io).ram().len() == 0x10000,
            final(io).rows().len() == 32,
            final(self).mach(*final(io)) == spec_exec_op(old(self).mach(*old(io)), Op::Save(vx)),
    {
        let ghost m0 = self.mach(*io);
        let mut i: usize = 0;
        while i < vx as usize + 1
            invariant
                i <= vx as usize + 1,
                vx < 16,
                *self == *old(self),
                io.ram().len() == 0x10000,
                io.rows() == old(io).rows(),
                io.keys() == old(io).keys(),
                io.sound() == old(io).sound(),
                io.ram() == spec_save(old(io).ram(), old(self).regs@, old(self).ptr, i as nat),
            decreases vx as usize + 1 - i,
        {
            proof {
                lemma_wadd16(self.ptr, i as u16);
            }
            io.write_ram(self.ptr.wrapping_add(i as u16), self.regs[i]);
            i += 1;
            proof {
                assert(io.ram() =~= spec_save(
                    old(io).ram(),
                    old(self).regs@,
                    old(self).ptr,
                    i as nat,
                ));
            }
        }
        if self.quirks.increment_ptr {
            proof {
                lemma_wadd16(self.ptr, 3);
            }
            self.ptr = self.ptr.wrapping_add(3);
        }
        proof {
            assert(self.mach(*io) =~= spec_exec_op(m0, Op::Save(vx)));
        }
    }

    /// Loads registers 0 through `vx` inclusive from consecutive addresses
    /// at the pointer; the pointer advances by 3 under the auto-increment
    /// quirk.
    fn op_restore<P: Peripherals>(&mut self, io: &mut P, vx: u8)
        requires
            old(self).wf(),
            vx < 16,
            old(io).ram().len() == 0x10000,
            old(io).rows().len() == 32,
        ensures
            final(self).wf(),
            final(io).ram().len() == 0x10000,
            final(io).rows().len() == 32,
            final(self).mach(*final(io)) == spec_exec_op(
                old(self).mach(*old(io)),
                Op::Restore(vx),
            ),
    {
        let ghost m0 = self.mach(*io);
        let mut i: usize = 0;
        while i < vx as usize + 1
            invariant
                i <= vx as usize + 1,
                vx < 16,
                *io == *old(io),
                io.ram().len() == 0x10000,
                self.ptr == old(self).ptr,
                self.pc == old(self).pc,
                self.stack == old(self).stack,
                self.sp == old(self).sp,
                self.rnd == old(self).rnd,
                self.timer == old(self).timer,
                self.state == old(self).state,
                self.quirks == old(self).quirks,
                self.regs@ == spec_restore(
                    old(self).regs@,
                    old(io).ram(),
                    old(self).ptr,
                    i as nat,
                ),
            decreases vx as usize + 1 - i,
        {
            proof {
                lemma_wadd16(self.ptr, i as u16);
            }
            let b = io.read_ram(self.ptr.wrapping_add(i as u16));
            self.regs[i] = b;
            i += 1;
            proof {
                assert(self.regs@ =~= spec_restore(
                    old(self).regs@,
                    old(io).ram(),
                    old(self).ptr,
                    i as nat,
                ));
            }
        }
        if self.quirks.increment_ptr {
            proof {
                lemma_wadd16(self.ptr, 3);
            }
            self.ptr = self.ptr.wrapping_add(3);
        }
        proof {
            assert(self.mach(*io) =~= spec_exec_op(m0, Op::Restore(vx)));
        }
    }

    /// Draws an `n`-row sprite fetched from the pointer at the position
    /// given by the two named registers, XOR-combining each positioned row
    /// with the screen row it lands on; sets the flag register to 1 exactly
    /// when a set pixel was drawn over a set pixel, and stalls until the
    /// next frame under the video-wait quirk.
    fn op_draw<P: Peripherals>(&mut self, io: &mut P, vx: u8, vy: u8, n: u8)
        requires
            old(self).wf(),
            vx < 16,
            vy < 16,
            n < 16,
            old(io).ram().len() == 0x10000,
            old(io).rows().len() == 32,
        ensures
            final(self).wf(),
            final(io).ram().len() == 0x10000,
            final(io).rows().len() == 32,
            final(self).mach(*final(io)) == spec_exec_op(
                old(self).mach(*old(io)),
                Op::Draw(vx, vy, n),
            ),
    {
        let ghost m0 = self.mach(*io);
        let rx = self.regs[vx as usize];
        let ry = self.regs[vy as usize];
        let xd = rx & 0x3f;
        let yd0 = ry & 0x1f;
        proof {
            assert(rx & 0x3f < 64 && ry & 0x1f < 32) by (bit_vector);
        }
        let clip = self.quirks.clip_sprites;
        let mut collision = false;
        let mut i: u8 = 0;
        while i < n && !(clip && yd0 + i > 31)
            invariant
                i <= n,
                n < 16,
                xd < 64,
                yd0 < 32,
                *self == *old(self),
                clip == old(self).quirks.clip_sprites,
                io.ram() == old(io).ram(),
                io.ram().len() == 0x10000,
                io.rows().len() == 32,
                io.keys() == old(io).keys(),
                io.sound() == old(io).sound(),
                io.rows() == spec_draw(
                    old(io).rows(),
                    old(io).ram(),
                    old(self).ptr,
                    xd,
                    yd0,
                    clip,
                    i as nat,
                ).0,
                collision == spec_draw(
                    old(io).rows(),
                    old(io).ram(),
                    old(self).ptr,
                    xd,
                    yd0,
                    clip,
                    i as nat,
                ).1,
            decreases n - i,
        {
            proof {
                lemma_wadd16(self.ptr, i as u16);
            }
            let dat = io.read_ram(self.ptr.wrapping_add(i as u16));
            let base = bit_reverse(dat) as u64;
            let placed = if clip {
                base << (xd as u64)
            } else {
                if xd == 0 {
                    base
                } else {
                    (base << (xd as u64)) | (base >> ((64 - xd) as u64))
                }
            };
            let yr = yd0 + i;
            let yd = yr & 0x1f;
            proof {
                assert((yr & 0x1f) < 32 && (yr & 0x1f) as int == (yr as int) % 32) by (bit_vector);
                assert(placed == place_row(dat, xd, clip));
            }
            let old_row = io.get_pixel_row(yd);
            let new_row = old_row ^ placed;
            collision = collision || (old_row & placed != 0);
            io.set_pixel_row(yd, new_row);
            i = i + 1;
            proof {
                assert(io.rows() =~= spec_draw(
                    old(io).rows(),
                    old(io).ram(),
                    old(self).ptr,
                    xd,
                    yd0,
                    clip,
                    i as nat,
                ).0);
            }
        }
        proof {
            if i < n {
                lemma_draw_clip_stable(
                    old(io).rows(),
                    old(io).ram(),
                    old(self).ptr,
                    xd,
                    yd0,
                    i as nat,
                    n as nat,
                );
            }
        }
        self.set_flag(collision);
        if self.quirks.video_wait {
            self.state = State::WaitFrame;
        }
        proof {
            assert(self.mach(*io) =~= spec_exec_op(m0, Op::Draw(vx, vy, n)));
        }
    }

    /// Zeroes every screen row; stalls until the next frame under the
    /// video-wait quirk. The flag register is left untouched.
    fn op_clear<P: Peripherals>(&mut self, io: &mut P)
        requires
            old(self).wf(),
            old(io).ram().len() == 0x10000,
            old(io).rows().len() == 32,
        ensures
            final(self).wf(),
            final(io).ram().len() == 0x10000,
            final(io).rows().len() == 32,
            final(self).mach(*final(io)) == spec_exec_op(old(self).mach(*old(io)), Op::ClearScr),
    {
        let ghost m0 = self.mach(*io);
        let mut y: u8 = 0;
        while y < 32
            invariant
                y <= 32,
                *self == *old(self),
                io.ram() == old(io).ram(),
                io.ram().len() == 0x10000,
                io.rows().len() == 32,
                io.keys() == old(io).keys(),
                io.sound() == old(io).sound(),
                forall|j: int| 0 <= j < y ==> io.rows()[j] == 0u64,
                forall|j: int| y <= j < 32 ==> io.rows()[j] == old(io).rows()[j],
            decreases 32 - y,
        {
            io.set_pixel_row(y, 0);
            y += 1;
        }
        if self.quirks.video_wait {
            self.state = State::WaitFrame;
        }
        proof {
            assert(io.rows() =~= Seq::new(32, |_j: int| 0u64));
            assert(self.mach(*io) =~= spec_exec_op(m0, Op::ClearScr));
        }
    }
}

/// 16-bit wraparound is the identity below 0x10000.
proof fn lemma_wrap16_small(a: int)
    requires
        0 <= a < 0x10000,
    ensures
        wrap16(a) == a,
{
    assert(a % 0x10000 == a) by (nonlinear_arith)
        requires
            0 <= a < 0x10000,
    ;
}

} // verus!
