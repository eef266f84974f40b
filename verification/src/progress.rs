//! How far a run has come, as exact counts.

use vstd::prelude::*;

verus! {

/// `completed` of `total` files have an outcome.
///
/// The counts are exact; a percentage is derived from them on demand, so
/// nothing is lost to rounding before a caller decides how to show it.
#[derive(Clone, Copy, Debug, PartialEq, Eq, Structural)]
pub struct Progress {
    pub completed: usize,
    pub total: usize,
}

/// Mathematical value of a [`Progress`].
pub struct ProgressView {
    pub completed: nat,
    pub total: nat,
}

impl ProgressView {
    /// A ratio that a percentage can be taken of.
    pub open spec fn proper(self) -> bool {
        0 < self.total && self.completed <= self.total
    }

    /// Nothing is left to do.
    pub open spec fn complete(self) -> bool {
        self.completed == self.total
    }

    /// The percentage in hundredths of a percent, rounded down: 10000 stands
    /// for 100.00 %.
    pub open spec fn hundredths(self) -> nat
        recommends
            self.proper(),
    {
        (self.completed * 10000 / self.total) as nat
    }
}

impl View for Progress {
    type V = ProgressView;

    open spec fn view(&self) -> ProgressView {
        ProgressView { completed: self.completed as nat, total: self.total as nat }
    }
}

/// A proper ratio lies between 0 % and 100 %, and reaches 100 % exactly when
/// every file has an outcome.
pub proof fn lemma_hundredths_range(p: ProgressView)
    requires
        p.proper(),
    ensures
        p.hundredths() <= 10000,
        p.hundredths() == 10000 <==> p.complete(),
{
    let c: int = p.completed as int;
    let t: int = p.total as int;
    assert(c * 10000 / t <= 10000 && (c * 10000 / t == 10000 <==> c == t)) by (nonlinear_arith)
        requires
            0 < t,
            0 <= c <= t,
    ;
}

/// With the same total, more completed files never show as a smaller
/// percentage.
pub proof fn lemma_hundredths_monotonic(p: ProgressView, q: ProgressView)
    requires
        p.total == q.total,
        0 < p.total,
        p.completed <= q.completed,
    ensures
        p.hundredths() <= q.hundredths(),
{
    let a: int = p.completed as int;
    let b: int = q.completed as int;
    let t: int = p.total as int;
    assert(a * 10000 / t <= b * 10000 / t) by (nonlinear_arith)
        requires
            0 < t,
            0 <= a <= b,
    ;
}

impl Progress {
    /// The percentage in hundredths of a percent, rounded down, or `None`
    /// where there is no proper ratio (no files, or more completed than
    /// there are).
    pub fn hundredths(&self) -> (r: Option<u32>)
        ensures
            r is Some <==> self@.proper(),
            r matches Some(h) ==> h == self@.hundredths() && h <= 10000,
    {
        if self.total == 0 || self.completed > self.total {
            return None;
        }
        proof {
            lemma_hundredths_range(self@);
        }
        let scaled: u128 = (self.completed as u128) * 10000;
        let h: u128 = scaled / (self.total as u128);
        Some(h as u32)
    }
}

} // verus!
