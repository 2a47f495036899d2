//! Progress events and the fixed-point fraction arithmetic behind them.

use vstd::prelude::*;
use vstd::arithmetic::div_mod::{lemma_div_is_ordered, lemma_div_pos_is_pos};
use vstd::arithmetic::mul::lemma_mul_inequality;

verus! {

/// Scale of progress fractions: `FULL` stands for 100%. Fractions are carried
/// as hundredths of a percent so the core stays free of floating point; an
/// observer divides by 100 to display a percentage.
pub const FULL: u32 = 10000;

/// A notification emitted while a file is being erased.
#[derive(Clone, Copy, Debug, PartialEq, Eq, Structural)]
pub enum Progress {
    /// Aggregate completion over all passes, in hundredths of a percent
    /// (`0 ..= FULL`); non-decreasing within a single job.
    Updated(u32),
    /// Terminal event: exactly one per job, always last. `true` on a fully
    /// successful erase, `false` after any I/O or channel failure.
    Finished(bool),
}

/// `completed / total` scaled to hundredths of a percent, rounded down.
pub open spec fn frac_of(completed: int, total: int) -> int
    recommends
        0 < total,
{
    completed * 10000 / total
}

/// The fraction always lands in `0 ..= FULL` while work done has not
/// exceeded the total.
pub proof fn lemma_frac_bounds(completed: int, total: int)
    requires
        0 <= completed <= total,
        0 < total,
    ensures
        0 <= frac_of(completed, total) <= 10000,
{
    lemma_mul_inequality(completed, total, 10000);
    lemma_div_pos_is_pos(completed * 10000, total);
    lemma_div_is_ordered(completed * 10000, total * 10000, total);
    assert(total * 10000 / total == 10000) by {
        lemma_div_multiples_vanish_local(10000, total);
    }
}

/// With a fixed total, the fraction is monotone in the work completed: this
/// is what makes the emitted `Updated` sequence non-decreasing.
pub proof fn lemma_frac_monotone(c1: int, c2: int, total: int)
    requires
        0 <= c1 <= c2,
        0 < total,
    ensures
        frac_of(c1, total) <= frac_of(c2, total),
{
    lemma_mul_inequality(c1, c2, 10000);
    lemma_div_is_ordered(c1 * 10000, c2 * 10000, total);
}

proof fn lemma_div_multiples_vanish_local(a: int, d: int)
    requires
        0 < d,
    ensures
        d * a / d == a,
{
    assert(d * a / d == a) by (nonlinear_arith)
        requires
            0 < d,
    ;
}

/// Computes `frac_of` on machine integers. The bound on `total` is what the
/// engine guarantees: a pass count that fits `u32` times a file size that
/// fits `u64`.
pub fn progress_fraction(completed: u128, total: u128) -> (r: u32)
    requires
        0 < total,
        completed <= total,
        total <= 0x1_0000_0000_0000_0000_0000_0000,
    ensures
        r == frac_of(completed as int, total as int),
        r <= FULL,
{
    proof {
        lemma_frac_bounds(completed as int, total as int);
        lemma_mul_inequality(
            completed as int,
            0x1_0000_0000_0000_0000_0000_0000,
            10000,
        );
    }
    ((completed * 10000) / total) as u32
}

} // verus!
