//! Percentiles as exact fractions.

use vstd::prelude::*;

verus! {

/// Parts per million in a whole.
pub const MILLION: u32 = 1_000_000;

/// A fraction strictly between 0 and 1, held in parts per million.
#[derive(Debug, Clone, Copy)]
pub struct Percentile {
    ppm: u32,
}

impl View for Percentile {
    type V = u32;

    closed spec fn view(&self) -> u32 {
        self.ppm
    }
}

/// Whether `ppm` parts per million lie strictly between 0 and 1.
pub open spec fn is_fraction(ppm: u32) -> bool {
    0 < ppm < MILLION
}

/// How many of `count` samples make up the lowest `ppm` parts per million:
/// `count * ppm / 1_000_000`, rounded down.
pub open spec fn rank(ppm: u32, count: nat) -> nat {
    count * ppm as nat / MILLION as nat
}

/// `ppm` parts per million as a whole percentage, rounded to the nearest
/// whole and, halfway between two, to the even one.
pub open spec fn whole_percent(ppm: u32) -> u32 {
    let whole = ppm / 10_000;
    let rest = ppm % 10_000;
    if rest > 5_000 || (rest == 5_000 && whole % 2 == 1) {
        (whole + 1) as u32
    } else {
        whole
    }
}

/// The rank never exceeds the count, and grows with the count.
pub proof fn lemma_rank_bounds(ppm: u32, count: nat)
    requires
        is_fraction(ppm),
    ensures
        rank(ppm, count) <= count,
        count > 0 ==> rank(ppm, count) < count,
{
    let p = ppm as nat;
    let m = MILLION as nat;
    assert(count * p / m <= count && (count > 0 ==> count * p / m < count)) by (nonlinear_arith)
        requires
            0 < p < m,
            m == 1_000_000,
    ;
}

impl Percentile {
    #[verifier::type_invariant]
    spec fn in_range(self) -> bool {
        is_fraction(self.ppm)
    }

    /// The percentile of `ppm` parts per million, if that lies strictly
    /// between 0 and 1.
    pub fn from_ppm(ppm: u32) -> (p: Option<Percentile>)
        ensures
            p.is_some() == is_fraction(ppm),
            p matches Some(q) ==> q@ == ppm,
    {
        if 0 < ppm && ppm < MILLION {
            Some(Percentile { ppm })
        } else {
            None
        }
    }

    /// Parts per million of this percentile.
    pub fn ppm(&self) -> (ppm: u32)
        ensures
            ppm == self@,
            is_fraction(ppm),
    {
        proof {
            use_type_invariant(self);
        }
        self.ppm
    }

    /// How many of `count` samples make up the lowest share that this
    /// percentile names.
    pub fn rank_of(&self, count: usize) -> (k: usize)
        ensures
            k == rank(self@, count as nat),
            k <= count,
    {
        proof {
            use_type_invariant(self);
            lemma_rank_bounds(self.ppm, count as nat);
            assert(count * self.ppm <= u128::MAX) by (nonlinear_arith)
                requires
                    count <= u64::MAX,
                    self.ppm <= u32::MAX,
            ;
        }
        let scaled: u128 = (count as u128) * (self.ppm as u128);
        (scaled / (MILLION as u128)) as usize
    }

    /// This percentile as a whole percentage.
    pub fn percent(&self) -> (pct: u32)
        ensures
            pct == whole_percent(self@),
            pct <= 100,
    {
        proof {
            use_type_invariant(self);
        }
        let whole: u32 = self.ppm / 10_000;
        let rest: u32 = self.ppm % 10_000;
        if rest > 5_000 || (rest == 5_000 && whole % 2 == 1) {
            whole + 1
        } else {
            whole
        }
    }
}

} // verus!
