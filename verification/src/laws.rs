//! Machine-level laws, proved over the model transitions of `machine`:
//! borrow-flag polarity, shift-flag selection, the key-wait round trip, and
//! the XOR idempotence of sprite drawing.

use vstd::prelude::*;
use crate::machine::{
    Machine, State, key_down, low_bit16, m_wf, place_row, spec_arith, spec_draw, spec_exec_op,
    spec_step, wrap16,
};
use crate::opcodes::{Arith, Op};
use crate::quirks::Quirks;

verus! {

/// For every pair of operand bytes, Sub's flag reports "no borrow": it is
/// set exactly when the destination operand is at least the source operand;
/// the flipped Sub's exactly the other way around.
pub proof fn lemma_sub_flag(x: u8, y: u8, q: Quirks)
    ensures
        spec_arith(Arith::Sub, x, y, q).1 == Some(x >= y),
        spec_arith(Arith::SubFlip, x, y, q).1 == Some(y >= x),
{
}

/// For every operand value, a shift's flag is exactly the bit shifted out
/// of the quirk-selected operand — the top bit for a left shift, the bottom
/// bit for a right shift — and the result is that operand shifted by one,
/// the lost bit dropped.
pub proof fn lemma_shift_flag(x: u8, y: u8, q: Quirks)
    ensures
        ({
            let sel = if q.shift_vy { y } else { x };
            &&& spec_arith(Arith::ShiftL, x, y, q).1 == Some((sel >> 7) == 1)
            &&& spec_arith(Arith::ShiftR, x, y, q).1 == Some((sel & 1) == 1)
            &&& spec_arith(Arith::ShiftL, x, y, q).0 == (sel * 2) % 256
            &&& spec_arith(Arith::ShiftR, x, y, q).0 == sel / 2
        }),
{
    let sel = if q.shift_vy { y } else { x };
    assert((sel & 0x80 != 0) == ((sel >> 7) == 1)) by (bit_vector);
    assert((sel & 0x01 != 0) == ((sel & 1) == 1)) by (bit_vector);
    assert((sel << 1) as int == (sel * 2) % 256) by (bit_vector);
    assert((sel >> 1) as int == sel / 2) by (bit_vector);
}

/// The machine with the host's key bitmask replaced — the host may change
/// the pressed keys between any two calls into the core.
pub open spec fn with_keys(m: Machine, k: u16) -> Machine {
    Machine { keys: k, ..m }
}

/// The machine after one "step" call per entry of `ks`, the host holding
/// the keys of that entry down during the poll.
pub open spec fn run_polls(m: Machine, ks: Seq<u16>) -> Machine
    decreases ks.len(),
{
    if ks.len() == 0 {
        m
    } else {
        run_polls(spec_step(with_keys(m, ks[0])).0, ks.drop_first())
    }
}

/// While waiting for a key press, polls that bring no newly pressed key
/// (each sample adds no bit over the one before it) only replace the
/// baseline: the machine is still waiting on the same register, and no
/// register, pointer or counter has moved — however many such polls occur.
pub proof fn lemma_idle_polls(m: Machine, vx: u8, b: u16, ks: Seq<u16>)
    requires
        m.state == State::WaitPress(vx, b),
        ks.len() > 0 ==> ks[0] & !b == 0,
        forall|i: int| 1 <= i < ks.len() ==> #[trigger] ks[i] & !ks[i - 1] == 0,
    ensures
        run_polls(m, ks) == (if ks.len() == 0 {
            m
        } else {
            Machine { keys: ks.last(), state: State::WaitPress(vx, ks.last()), ..m }
        }),
    decreases ks.len(),
{
    if ks.len() > 0 {
        let m1 = spec_step(with_keys(m, ks[0])).0;
        assert(m1 =~= (if ks[0] & !b == 0 {
            Machine { keys: ks[0], state: State::WaitPress(vx, ks[0]), ..m }
        } else {
            m1
        }));
        lemma_idle_polls(m1, vx, ks[0], ks.drop_first());
        assert(run_polls(m, ks) == run_polls(m1, ks.drop_first()));
        if ks.len() > 1 {
            assert(ks.drop_first()[0] == ks[1]);
            assert(forall|i: int|
                1 <= i < ks.drop_first().len() ==> #[trigger] ks.drop_first()[i]
                    & !ks.drop_first()[i - 1] == 0);
            assert(ks.drop_first().last() == ks.last());
            assert(run_polls(m, ks) =~= (Machine {
                keys: ks.last(),
                state: State::WaitPress(vx, ks.last()),
                ..m
            }));
        } else {
            assert(ks.drop_first().len() == 0);
            assert(run_polls(m, ks) == m1);
        }
    }
}

/// The key-wait round trip. Starting from any machine, execute a wait-key
/// instruction, let any number of idle polls go by (at least the first,
/// which only lowers the all-ones baseline), then supply a single fresh
/// key edge and, on the following poll, its release: the machine is back
/// in Running with exactly the pressed key's index in the target register,
/// after exactly that one press poll and one release poll, and no other
/// piece of CPU state — program counter included — has changed.
pub proof fn lemma_wait_key_round_trip(
    m: Machine,
    vx: u8,
    idles: Seq<u16>,
    key: u8,
    release: u16,
)
    requires
        m_wf(m),
        vx < 16,
        key < 16,
        idles.len() >= 1,
        forall|i: int| 1 <= i < idles.len() ==> #[trigger] idles[i] & !idles[i - 1] == 0,
        idles.last() & (1u16 << key) == 0,
        (release >> (key as u16)) & 1 == 0,
    ensures
        ({
            let m1 = spec_exec_op(m, Op::WaitKey(vx));
            let m2 = run_polls(m1, idles);
            let press = idles.last() | (1u16 << key);
            let m3 = spec_step(with_keys(m2, press)).0;
            let m4 = spec_step(with_keys(m3, release)).0;
            &&& m4.state == State::Running
            &&& m4.regs == m.regs.update(vx as int, key)
            &&& m4.pc == m.pc
            &&& m4.ptr == m.ptr
            &&& m4.stack == m.stack
            &&& m4.sp == m.sp
            &&& m4.rnd == m.rnd
            &&& m4.timer == m.timer
            &&& m4.ram == m.ram
            &&& m4.rows == m.rows
            &&& m4.sound == m.sound
        }),
{
    let m1 = spec_exec_op(m, Op::WaitKey(vx));
    assert(m1.state == State::WaitPress(vx, 0xffff));
    assert(idles[0] & !0xffffu16 == 0) by (bit_vector);
    lemma_idle_polls(m1, vx, 0xffff, idles);
    let m2 = run_polls(m1, idles);
    let b = idles.last();
    let press = b | (1u16 << key);
    assert((b | (1u16 << key)) & !b == 1u16 << key) by (bit_vector)
        requires
            b & (1u16 << key) == 0,
    ;
    assert(1u16 << key != 0) by (bit_vector)
        requires
            key < 16,
    ;
    assert(low_bit16(1u16 << key) == key) by (bit_vector)
        requires
            key < 16,
    ;
    let m3 = spec_step(with_keys(m2, press)).0;
    assert(m3 =~= (Machine {
        keys: press,
        regs: m.regs.update(vx as int, key),
        state: State::WaitRelease(key),
        ..m
    }));
    assert(((release >> (key as u16)) & 1 != 1) == !key_down(release, key));
    let m4 = spec_step(with_keys(m3, release)).0;
    assert(m4 =~= (Machine {
        keys: release,
        regs: m.regs.update(vx as int, key),
        state: State::Running,
        ..m
    }));
}

/// Screen row hit by sprite row `i` of a draw whose first target row is
/// `yd0`.
pub open spec fn draw_target(yd0: u8, i: int) -> int {
    (yd0 + i) % 32
}

/// Whether sprite row `i` is processed at all: under clipping, rows past
/// the bottom edge are not.
pub open spec fn draw_active(yd0: u8, clip: bool, i: int) -> bool {
    !(clip && yd0 + i > 31)
}

/// The positioned row value that sprite row `i` contributes.
pub open spec fn draw_placed(ram: Seq<u8>, ptr: u16, xd: u8, clip: bool, i: int) -> u64 {
    place_row(ram[wrap16(ptr + i) as int], xd, clip)
}

/// The sprite row index that hits screen row `j`, inverting `draw_target`.
pub open spec fn inv_target(yd0: u8, j: int) -> int {
    (j - yd0 + 32) % 32
}

/// `inv_target` inverts `draw_target` within one 32-row window, and the
/// other way around: distinct sprite rows of one draw hit distinct screen
/// rows.
proof fn lemma_target_inverse(yd0: u8, i: int, j: int)
    requires
        yd0 < 32,
        0 <= i < 32,
        0 <= j < 32,
    ensures
        inv_target(yd0, draw_target(yd0, i)) == i,
        draw_target(yd0, inv_target(yd0, j)) == j,
{
    if yd0 + i < 32 {
        assert((yd0 + i) % 32 == yd0 + i) by (nonlinear_arith)
            requires
                0 <= yd0 + i < 32,
        ;
        assert((yd0 + i - yd0 + 32) % 32 == i) by (nonlinear_arith)
            requires
                0 <= i < 32,
        ;
    } else {
        assert((yd0 + i) % 32 == yd0 + i - 32) by (nonlinear_arith)
            requires
                32 <= yd0 + i < 64,
        ;
        assert((yd0 + i - 32 - yd0 + 32) % 32 == i) by (nonlinear_arith)
            requires
                0 <= i < 32,
        ;
    }
    if j - yd0 >= 0 {
        assert((j - yd0 + 32) % 32 == j - yd0) by (nonlinear_arith)
            requires
                0 <= j - yd0 < 32,
        ;
        assert((yd0 + (j - yd0)) % 32 == j) by (nonlinear_arith)
            requires
                0 <= j < 32,
        ;
    } else {
        assert((j - yd0 + 32) % 32 == j - yd0 + 32) by (nonlinear_arith)
            requires
                0 <= j - yd0 + 32 < 32,
        ;
        assert((yd0 + (j - yd0 + 32)) % 32 == j) by (nonlinear_arith)
            requires
                0 <= j < 32,
                32 <= j + 32 < 64,
        ;
    }
}

/// Pointwise reading of a draw's first `k` sprite rows: each screen row in
/// the hit window holds its old value XOR the positioned sprite row that
/// lands on it, every other row is untouched, and the collision flag is set
/// exactly when some processed sprite row overlapped a set pixel.
proof fn lemma_draw_char(
    rows: Seq<u64>,
    ram: Seq<u8>,
    ptr: u16,
    xd: u8,
    yd0: u8,
    clip: bool,
    k: nat,
)
    requires
        rows.len() == 32,
        yd0 < 32,
        k <= 16,
    ensures
        spec_draw(rows, ram, ptr, xd, yd0, clip, k).0.len() == 32,
        forall|j: int|
            0 <= j < 32 ==> #[trigger] spec_draw(rows, ram, ptr, xd, yd0, clip, k).0[j] == (if (
            inv_target(yd0, j) < k && draw_active(yd0, clip, inv_target(yd0, j))) {
                rows[j] ^ draw_placed(ram, ptr, xd, clip, inv_target(yd0, j))
            } else {
                rows[j]
            }),
        spec_draw(rows, ram, ptr, xd, yd0, clip, k).1 == (exists|i: int|
            0 <= i < k && draw_active(yd0, clip, i) && #[trigger] (rows[draw_target(yd0, i)]
                & draw_placed(ram, ptr, xd, clip, i)) != 0),
    decreases k,
{
    if k > 0 {
        lemma_draw_char(rows, ram, ptr, xd, yd0, clip, (k - 1) as nat);
        let prev = spec_draw(rows, ram, ptr, xd, yd0, clip, (k - 1) as nat);
        let cur = spec_draw(rows, ram, ptr, xd, yd0, clip, k);
        let i0 = k - 1;
        assert(forall|i: int| 0 <= i < 32 ==> 0 <= #[trigger] draw_target(yd0, i) < 32) by {
            assert(forall|a: int| a >= 0 ==> 0 <= #[trigger] (a % 32) < 32) by (nonlinear_arith);
        }
        assert(forall|j: int| 0 <= j < 32 ==> 0 <= #[trigger] inv_target(yd0, j) < 32) by {
            assert(forall|a: int| a >= 0 ==> 0 <= #[trigger] (a % 32) < 32) by (nonlinear_arith);
        }
        if draw_active(yd0, clip, i0) {
            let t = draw_target(yd0, i0);
            lemma_target_inverse(yd0, i0, t);
            assert(prev.0[t] == rows[t]);
            assert(forall|j: int|
                0 <= j < 32 && j != t ==> #[trigger] inv_target(yd0, j) != i0) by {
                assert forall|j: int| 0 <= j < 32 && j != t implies #[trigger] inv_target(yd0, j)
                    != i0 by {
                    lemma_target_inverse(yd0, i0, j);
                }
            }
            assert(cur.0 == prev.0.update(t, prev.0[t] ^ draw_placed(ram, ptr, xd, clip, i0)));
            assert(cur.1 == (prev.1 || (rows[t] & draw_placed(ram, ptr, xd, clip, i0)) != 0));
            if cur.1 {
                if prev.1 {
                    assert(exists|i: int|
                        0 <= i < k - 1 && draw_active(yd0, clip, i) && #[trigger] (rows[
                        draw_target(yd0, i)] & draw_placed(ram, ptr, xd, clip, i)) != 0);
                } else {
                    assert((rows[draw_target(yd0, i0)] & draw_placed(ram, ptr, xd, clip, i0))
                        != 0);
                }
            }
        } else {
            assert(cur == prev);
        }
    }
}

/// Whether a draw of the given sprite would turn at least one pixel from
/// off to on — "the first draw set bits".
pub open spec fn draw_sets_pixels(m: Machine, vx: u8, vy: u8, n: u8) -> bool {
    let xd = m.regs[vx as int] & 0x3f;
    let yd0 = m.regs[vy as int] & 0x1f;
    exists|i: int|
        0 <= i < n && draw_active(yd0, m.quirks.clip_sprites, i) && #[trigger] (draw_placed(
            m.ram,
            m.ptr,
            xd,
            m.quirks.clip_sprites,
            i,
        ) & !m.rows[draw_target(yd0, i)]) != 0
}

/// Drawing is its own inverse, pixel for pixel: the same sprite drawn at
/// the same position twice returns every screen row to its value before
/// the first draw, and the second draw reports a collision exactly when
/// the first draw set at least one pixel. (The two coordinate registers
/// must not be the flag register, which the first draw overwrites.)
pub proof fn lemma_draw_idempotent(m: Machine, vx: u8, vy: u8, n: u8)
    requires
        m_wf(m),
        vx < 16,
        vy < 16,
        n < 16,
        vx != 15,
        vy != 15,
    ensures
        ({
            let m1 = spec_exec_op(m, Op::Draw(vx, vy, n));
            let m2 = spec_exec_op(m1, Op::Draw(vx, vy, n));
            &&& m2.rows =~= m.rows
            &&& m2.regs[15] == (if draw_sets_pixels(m, vx, vy, n) {
                1u8
            } else {
                0u8
            })
        }),
{
    let clip = m.quirks.clip_sprites;
    let xd = m.regs[vx as int] & 0x3f;
    let yd0 = m.regs[vy as int] & 0x1f;
    let rv = m.regs[vy as int];
    assert(rv & 0x1f < 32) by (bit_vector);
    let m1 = spec_exec_op(m, Op::Draw(vx, vy, n));
    let m2 = spec_exec_op(m1, Op::Draw(vx, vy, n));
    let d1 = spec_draw(m.rows, m.ram, m.ptr, xd, yd0, clip, n as nat);
    let d2 = spec_draw(m1.rows, m.ram, m.ptr, xd, yd0, clip, n as nat);
    assert(m1.regs[vx as int] == m.regs[vx as int]);
    assert(m1.regs[vy as int] == m.regs[vy as int]);
    assert(m1.rows == d1.0);
    assert(m2.rows == d2.0);
    lemma_draw_char(m.rows, m.ram, m.ptr, xd, yd0, clip, n as nat);
    lemma_draw_char(d1.0, m.ram, m.ptr, xd, yd0, clip, n as nat);
    assert(forall|a: u64, b: u64| #[trigger] ((a ^ b) ^ b) == a) by (bit_vector);
    assert(forall|a: u64, b: u64| (#[trigger] ((a ^ b) & b) != 0) == ((b & !a) != 0))
        by (bit_vector);
    assert(forall|j: int| 0 <= j < 32 ==> 0 <= #[trigger] inv_target(yd0, j) < 32) by {
        assert(forall|a: int| a >= 0 ==> 0 <= #[trigger] (a % 32) < 32) by (nonlinear_arith);
    }
    assert(forall|i: int| 0 <= i < 32 ==> 0 <= #[trigger] draw_target(yd0, i) < 32) by {
        assert(forall|a: int| a >= 0 ==> 0 <= #[trigger] (a % 32) < 32) by (nonlinear_arith);
    }
    // every row comes back: either untouched twice, or XORed twice with the
    // same positioned sprite row
    assert forall|j: int| 0 <= j < 32 implies m2.rows[j] == m.rows[j] by {
        let i = inv_target(yd0, j);
        if i < n && draw_active(yd0, clip, i) {
            lemma_target_inverse(yd0, i, j);
            assert(d1.0[j] == m.rows[j] ^ draw_placed(m.ram, m.ptr, xd, clip, i));
            assert(d2.0[j] == d1.0[j] ^ draw_placed(m.ram, m.ptr, xd, clip, i));
        }
    }
    assert(m2.rows =~= m.rows);
    // the second draw's collision flag reads back what the first draw set
    if d2.1 {
        let i = choose|i: int|
            0 <= i < n && draw_active(yd0, clip, i) && #[trigger] (d1.0[draw_target(yd0, i)]
                & draw_placed(m.ram, m.ptr, xd, clip, i)) != 0;
        let t = draw_target(yd0, i);
        lemma_target_inverse(yd0, i, t);
        assert(d1.0[t] == m.rows[t] ^ draw_placed(m.ram, m.ptr, xd, clip, i));
        assert((draw_placed(m.ram, m.ptr, xd, clip, i) & !m.rows[t]) != 0);
        assert(draw_sets_pixels(m, vx, vy, n));
    }
    if draw_sets_pixels(m, vx, vy, n) {
        let i = choose|i: int|
            0 <= i < n && draw_active(yd0, clip, i) && #[trigger] (draw_placed(
                m.ram,
                m.ptr,
                xd,
                clip,
                i,
            ) & !m.rows[draw_target(yd0, i)]) != 0;
        let t = draw_target(yd0, i);
        lemma_target_inverse(yd0, i, t);
        assert(d1.0[t] == m.rows[t] ^ draw_placed(m.ram, m.ptr, xd, clip, i));
        assert((d1.0[t] & draw_placed(m.ram, m.ptr, xd, clip, i)) != 0);
        assert(d2.1);
    }
}

} // verus!
