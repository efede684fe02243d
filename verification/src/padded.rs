//! A padded index walk for display compositing: `n` blank slots, then the
//! indices `0..len`, then `n` blank slots again. Used by hosts to lay a
//! frame out with a border.

use vstd::prelude::*;

verus! {

/// Where the walk stands: blanks still owed before the indices, the next
/// index to produce, or blanks still owed after them.
#[derive(Clone, Copy, PartialEq, Eq, Structural, Debug)]
pub enum PaddedStep {
    Before(usize),
    During(usize),
    After(usize),
}

/// The walk itself. `next` hands out `Some(None)` for a blank slot,
/// `Some(Some(i))` for index `i`, and `None` once everything is spent.
pub struct Padded {
    pub padding: usize,
    pub len: usize,
    pub step: PaddedStep,
}

/// `n` blank slots.
pub open spec fn blanks(n: int) -> Seq<Option<usize>> {
    Seq::new(n as nat, |_k: int| None::<usize>)
}

/// The indices `from..len`.
pub open spec fn indices(from: int, len: int) -> Seq<Option<usize>> {
    Seq::new((len - from) as nat, |k: int| Some((from + k) as usize))
}

/// What a fresh walk of `pad(n, len)` produces, in order.
pub open spec fn padded_seq(n: int, len: int) -> Seq<Option<usize>> {
    blanks(n) + indices(0, len) + blanks(n)
}

impl Padded {
    /// The walk never stands past the end of its index range.
    pub open spec fn wf(self) -> bool {
        self.step matches PaddedStep::During(i) ==> i <= self.len
    }

    /// Everything the walk has yet to produce, in order.
    pub open spec fn remaining(self) -> Seq<Option<usize>> {
        match self.step {
            PaddedStep::Before(cnt) => blanks(cnt as int) + indices(0, self.len as int) + blanks(
                self.padding as int,
            ),
            PaddedStep::During(i) => indices(i as int, self.len as int) + blanks(
                self.padding as int,
            ),
            PaddedStep::After(cnt) => blanks(cnt as int),
        }
    }

    /// Produces the next slot of the walk, or `None` when it is spent.
    pub fn next(&mut self) -> (r: Option<Option<usize>>)
        requires
            old(self).wf(),
        ensures
            final(self).wf(),
            old(self).remaining().len() == 0 ==> r is None && final(self).remaining()
                == old(self).remaining(),
            old(self).remaining().len() > 0 ==> r == Some(old(self).remaining()[0])
                && final(self).remaining() == old(self).remaining().drop_first(),
    {
        let ghost r0 = self.remaining();
        if let PaddedStep::Before(cnt) = self.step {
            if cnt == 0 {
                self.step = PaddedStep::During(0);
                proof {
                    assert(self.remaining() =~= r0);
                }
            }
        }
        if let PaddedStep::During(i) = self.step {
            if i >= self.len {
                self.step = PaddedStep::After(self.padding);
                proof {
                    assert(self.remaining() =~= r0);
                }
            }
        }
        match self.step {
            PaddedStep::Before(cnt) => {
                self.step = PaddedStep::Before(cnt - 1);
                proof {
                    assert(r0[0] is None);
                    assert(self.remaining() =~= r0.drop_first());
                }
                Some(None)
            },
            PaddedStep::During(i) => {
                self.step = PaddedStep::During(i + 1);
                proof {
                    assert(r0[0] == Some(i));
                    assert(self.remaining() =~= r0.drop_first());
                }
                Some(Some(i))
            },
            PaddedStep::After(cnt) => {
                if cnt == 0 {
                    None
                } else {
                    self.step = PaddedStep::After(cnt - 1);
                    proof {
                        assert(r0[0] is None);
                        assert(self.remaining() =~= r0.drop_first());
                    }
                    Some(None)
                }
            },
        }
    }
}

/// A fresh walk: `n` blanks, the indices `0..len`, `n` blanks.
pub fn pad(n: usize, len: usize) -> (p: Padded)
    ensures
        p.wf(),
        p.remaining() == padded_seq(n as int, len as int),
{
    let p = Padded { padding: n, len, step: PaddedStep::Before(n) };
    proof {
        assert(p.remaining() =~= padded_seq(n as int, len as int));
    }
    p
}

} // verus!
