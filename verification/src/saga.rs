//! Compensating transactions: a saga is a row of steps, each with a way
//! forward and a way back. The steps run forward in their order; once one
//! fails, the steps before it are taken back in the reverse order.
//!
//! The steps themselves act on the world outside and are run by the
//! caller. This module decides which step is due and in which direction.

use vstd::prelude::*;

verus! {

/// Where a saga stands.
#[derive(Debug, Clone, Copy, PartialEq, Eq, Structural)]
pub enum Phase {
    /// The steps before this one went forward; this one is due.
    Forward(usize),
    /// A step failed; this many of the steps before it are still to be
    /// taken back.
    Backward(usize),
}

/// What is due in a saga.
#[derive(Debug, Clone, Copy, PartialEq, Eq, Structural)]
pub enum Move {
    /// The step with this number goes forward.
    Forward(usize),
    /// The step with this number is taken back.
    Backward(usize),
    /// Nothing more is due: every step went forward (`true`), or one
    /// failed and those before it were taken back (`false`).
    Finish(bool),
}

/// A saga of `len` steps and where it stands.
#[derive(Debug, Clone, Copy, PartialEq, Eq, Structural)]
pub struct Saga {
    pub len: usize,
    pub phase: Phase,
}

impl Saga {
    /// What is due.
    pub open spec fn next_spec(self) -> Move {
        match self.phase {
            Phase::Forward(i) => if i < self.len {
                Move::Forward(i)
            } else {
                Move::Finish(true)
            },
            Phase::Backward(k) => if k > 0 {
                Move::Backward((k - 1) as usize)
            } else {
                Move::Finish(false)
            },
        }
    }

    /// Where the saga stands once what was due is done: `ok` says whether
    /// a step that went forward succeeded; taking a step back always counts
    /// as done.
    pub open spec fn advance_spec(self, ok: bool) -> Saga {
        match self.phase {
            Phase::Forward(i) => if i >= self.len {
                self
            } else if ok {
                Saga { phase: Phase::Forward((i + 1) as usize), ..self }
            } else {
                Saga { phase: Phase::Backward(i), ..self }
            },
            Phase::Backward(k) => if k > 0 {
                Saga { phase: Phase::Backward((k - 1) as usize), ..self }
            } else {
                self
            },
        }
    }

    /// How many moves are due at most before the saga is finished.
    pub open spec fn measure(self) -> nat {
        match self.phase {
            Phase::Forward(i) => if i < self.len {
                (2 * self.len - i + 2) as nat
            } else {
                0
            },
            Phase::Backward(k) => (k + 1) as nat,
        }
    }

    /// The moves of the saga from where it stands to its end, where the
    /// step `i` succeeds exactly if `ok(i)`.
    pub open spec fn trace(self, ok: spec_fn(usize) -> bool) -> Seq<Move>
        decreases self.measure(),
    {
        match self.next_spec() {
            Move::Finish(b) => seq![Move::Finish(b)],
            Move::Forward(i) => seq![Move::Forward(i)] + self.advance_spec(ok(i)).trace(ok),
            Move::Backward(i) => seq![Move::Backward(i)] + self.advance_spec(true).trace(ok),
        }
    }

    /// A saga of `len` steps of which none has run.
    pub open spec fn new_spec(len: usize) -> Saga {
        Saga { len, phase: Phase::Forward(0) }
    }

    /// A saga of `len` steps of which none has run.
    pub fn new(len: usize) -> (r: Saga)
        ensures
            r == Saga::new_spec(len),
    {
        Saga { len, phase: Phase::Forward(0) }
    }

    /// What is due.
    pub fn next(&self) -> (r: Move)
        ensures
            r == self.next_spec(),
    {
        match self.phase {
            Phase::Forward(i) => {
                if i < self.len {
                    Move::Forward(i)
                } else {
                    Move::Finish(true)
                }
            },
            Phase::Backward(k) => {
                if k > 0 {
                    Move::Backward(k - 1)
                } else {
                    Move::Finish(false)
                }
            },
        }
    }

    /// Notes that what was due is done.
    pub fn advance(&mut self, ok: bool)
        ensures
            *final(self) == old(self).advance_spec(ok),
    {
        match self.phase {
            Phase::Forward(i) => {
                if i < self.len {
                    if ok {
                        self.phase = Phase::Forward(i + 1);
                    } else {
                        self.phase = Phase::Backward(i);
                    }
                }
            },
            Phase::Backward(k) => {
                if k > 0 {
                    self.phase = Phase::Backward(k - 1);
                }
            },
        }
    }
}

/// The steps whose effects stand after a row of moves, given those whose
/// effects stood before: a step that went forward and succeeded has its
/// effect, a step that was taken back has it no more.
pub open spec fn standing(before: Set<usize>, moves: Seq<Move>, ok: spec_fn(usize) -> bool) -> Set<
    usize,
>
    decreases moves.len(),
{
    if moves.len() == 0 {
        before
    } else {
        let now = match moves[0] {
            Move::Forward(i) => if ok(i) {
                before.insert(i)
            } else {
                before
            },
            Move::Backward(i) => before.remove(i),
            Move::Finish(_) => before,
        };
        standing(now, moves.drop_first(), ok)
    }
}

/// The steps with a number below `n`.
pub open spec fn below(n: usize) -> Set<usize> {
    Set::new(|i: usize| i < n)
}

/// Whether every step from `from` on succeeds.
pub open spec fn all_ok(len: usize, from: usize, ok: spec_fn(usize) -> bool) -> bool {
    forall|i: usize| from <= i < len ==> #[trigger] ok(i)
}

proof fn lemma_standing_step(
    before: Set<usize>,
    m: Move,
    rest: Seq<Move>,
    ok: spec_fn(usize) -> bool,
)
    ensures
        standing(before, seq![m] + rest, ok) == standing(
            match m {
                Move::Forward(i) => if ok(i) {
                    before.insert(i)
                } else {
                    before
                },
                Move::Backward(i) => before.remove(i),
                Move::Finish(_) => before,
            },
            rest,
            ok,
        ),
{
    let all = seq![m] + rest;
    assert(all[0] == m);
    assert(all.drop_first() =~= rest);
}

/// Taking back the steps below `k` leaves no effect standing, and the
/// saga ends as failed.
proof fn lemma_backward(len: usize, k: usize, ok: spec_fn(usize) -> bool)
    ensures
        standing(below(k), (Saga { len, phase: Phase::Backward(k) }).trace(ok), ok)
            == Set::<usize>::empty(),
        (Saga { len, phase: Phase::Backward(k) }).trace(ok).last() == Move::Finish(false),
    decreases k,
{
    let s = Saga { len, phase: Phase::Backward(k) };
    if k == 0 {
        assert(s.trace(ok) =~= seq![Move::Finish(false)]);
        lemma_standing_step(below(0), Move::Finish(false), Seq::empty(), ok);
        assert(seq![Move::Finish(false)] + Seq::<Move>::empty() =~= seq![Move::Finish(false)]);
        assert(below(0) =~= Set::<usize>::empty());
    } else {
        let j = (k - 1) as usize;
        let rest = (Saga { len, phase: Phase::Backward(j) }).trace(ok);
        assert(s.advance_spec(true) == (Saga { len, phase: Phase::Backward(j) }));
        assert(s.trace(ok) == seq![Move::Backward(j)] + rest);
        lemma_backward(len, j, ok);
        lemma_standing_step(below(k), Move::Backward(j), rest, ok);
        assert(below(k).remove(j) =~= below(j));
        assert(rest.len() > 0);
    }
}

/// From the step `i` on, with the effects of the steps before it
/// standing: where every step succeeds the saga ends as done with the
/// effects of all steps standing, and where one fails it ends as failed
/// with no effect standing.
proof fn lemma_forward(len: usize, i: usize, ok: spec_fn(usize) -> bool)
    requires
        i <= len,
    ensures
        all_ok(len, i, ok) ==> standing(
            below(i),
            (Saga { len, phase: Phase::Forward(i) }).trace(ok),
            ok,
        ) == below(len) && (Saga { len, phase: Phase::Forward(i) }).trace(ok).last()
            == Move::Finish(true),
        !all_ok(len, i, ok) ==> standing(
            below(i),
            (Saga { len, phase: Phase::Forward(i) }).trace(ok),
            ok,
        ) == Set::<usize>::empty() && (Saga { len, phase: Phase::Forward(i) }).trace(ok).last()
            == Move::Finish(false),
    decreases len - i,
{
    let s = Saga { len, phase: Phase::Forward(i) };
    if i == len {
        assert(s.trace(ok) =~= seq![Move::Finish(true)]);
        lemma_standing_step(below(i), Move::Finish(true), Seq::empty(), ok);
        assert(seq![Move::Finish(true)] + Seq::<Move>::empty() =~= seq![Move::Finish(true)]);
    } else if ok(i) {
        let j = (i + 1) as usize;
        let next = Saga { len, phase: Phase::Forward(j) };
        assert(s.advance_spec(true) == next);
        assert(s.trace(ok) == seq![Move::Forward(i)] + next.trace(ok));
        lemma_forward(len, j, ok);
        lemma_standing_step(below(i), Move::Forward(i), next.trace(ok), ok);
        assert(below(i).insert(i) =~= below(j));
        assert(all_ok(len, i, ok) == all_ok(len, j, ok)) by {
            if all_ok(len, j, ok) {
                assert forall|x: usize| i <= x < len implies #[trigger] ok(x) by {
                    if x != i {
                        assert(j <= x);
                    }
                }
            }
        }
        assert(next.trace(ok).len() > 0);
    } else {
        let next = Saga { len, phase: Phase::Backward(i) };
        assert(s.advance_spec(false) == next);
        assert(s.trace(ok) == seq![Move::Forward(i)] + next.trace(ok));
        lemma_backward(len, i, ok);
        lemma_standing_step(below(i), Move::Forward(i), next.trace(ok), ok);
        assert(next.trace(ok).len() > 0);
    }
}

/// A saga that is told from its start either ends as done, with the
/// effect of every step standing, or ends as failed, with no effect
/// standing at all: once a step fails, what the steps before it did is
/// taken back. It ends as done exactly where every step succeeds.
pub proof fn lemma_compensation_complete(len: usize, ok: spec_fn(usize) -> bool)
    ensures
        ({
            let moves = Saga::new_spec(len).trace(ok);
            let left = standing(Set::<usize>::empty(), moves, ok);
            if all_ok(len, 0, ok) {
                moves.last() == Move::Finish(true) && left == below(len)
            } else {
                moves.last() == Move::Finish(false) && left == Set::<usize>::empty()
            }
        }),
{
    lemma_forward(len, 0, ok);
    assert(below(0) =~= Set::<usize>::empty());
}

} // verus!
