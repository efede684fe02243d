//! Model of the pseudo-random source: a 16-bit Galois linear-feedback shift
//! register with fixed seed 0xf00f and tap mask 0xb400. Each advance shifts
//! the register right by one bit and, if the bit shifted out was 1, XORs the
//! tap mask in; the produced byte is the low half of the shifted register.

use vstd::prelude::*;

verus! {

/// Initial LFSR state of a freshly reset CPU.
pub const RNG_SEED: u16 = 0xf00f;

/// The register after one advance from state `s`.
pub open spec fn lfsr_next(s: u16) -> u16 {
    if s & 1 == 1 {
        (s >> 1) ^ 0xb400
    } else {
        s >> 1
    }
}

/// The byte produced by one advance from state `s`: the low 8 bits of the
/// register after the shift.
pub open spec fn lfsr_byte(s: u16) -> u8 {
    (lfsr_next(s) & 0xff) as u8
}

/// The first `n` bytes drawn from state `s`.
pub open spec fn lfsr_stream(s: u16, n: nat) -> Seq<u8>
    decreases n,
{
    if n == 0 {
        Seq::empty()
    } else {
        seq![lfsr_byte(s)] + lfsr_stream(lfsr_next(s), (n - 1) as nat)
    }
}

/// The sequence of bytes is fully determined by the starting state: asking
/// for more bytes never changes the ones already produced, so the first `m`
/// bytes are reproducible bit-for-bit however long a run is.
pub proof fn lemma_lfsr_stream_prefix(s: u16, m: nat, n: nat)
    requires
        m <= n,
    ensures
        lfsr_stream(s, n).len() == n,
        lfsr_stream(s, n).take(m as int) == lfsr_stream(s, m),
    decreases n,
{
    lemma_lfsr_stream_len(s, n);
    if m == 0 {
        assert(lfsr_stream(s, n).take(0) =~= lfsr_stream(s, 0));
    } else {
        lemma_lfsr_stream_prefix(lfsr_next(s), (m - 1) as nat, (n - 1) as nat);
        lemma_lfsr_stream_len(lfsr_next(s), (n - 1) as nat);
        assert(lfsr_stream(s, n).take(m as int) =~= lfsr_stream(s, m));
    }
}

/// A stream of `n` bytes has length `n`.
pub proof fn lemma_lfsr_stream_len(s: u16, n: nat)
    ensures
        lfsr_stream(s, n).len() == n,
    decreases n,
{
    if n > 0 {
        lemma_lfsr_stream_len(lfsr_next(s), (n - 1) as nat);
    }
}

} // verus!
