use vstd::prelude::*;

verus! {

/// An exact fraction `num / den`.
///
/// Screen coordinates, intensities and the like are kept as fractions so that
/// every statement about them is exact; whoever draws them divides once.
#[derive(Clone, Copy, Debug, PartialEq, Eq, Structural)]
pub struct Ratio {
    pub num: i128,
    pub den: i128,
}

impl Ratio {
    /// A fraction is well formed when its denominator is positive.
    pub open spec fn wf(self) -> bool {
        self.den > 0
    }

    /// `self < other` as rational numbers, for well-formed fractions.
    pub open spec fn lt(self, other: Ratio) -> bool {
        self.num * other.den < other.num * self.den
    }

    /// `self <= other` as rational numbers, for well-formed fractions.
    pub open spec fn le(self, other: Ratio) -> bool {
        self.num * other.den <= other.num * self.den
    }

    /// The fraction `tenths / 10`.
    pub open spec fn spec_tenths(tenths: int) -> Ratio {
        Ratio { num: tenths as i128, den: 10 }
    }

    /// The fraction `hundredths / 100`.
    pub open spec fn spec_hundredths(hundredths: int) -> Ratio {
        Ratio { num: hundredths as i128, den: 100 }
    }

    /// The fraction `hundredths / 100`.
    pub fn hundredths(hundredths: i16) -> (r: Ratio)
        ensures
            r == Ratio::spec_hundredths(hundredths as int),
            r.wf(),
    {
        Ratio { num: hundredths as i128, den: 100 }
    }

    /// The fraction `tenths / 10`.
    pub fn tenths(tenths: i16) -> (r: Ratio)
        ensures
            r == Ratio::spec_tenths(tenths as int),
            r.wf(),
    {
        Ratio { num: tenths as i128, den: 10 }
    }
}

/// Fractions over one positive denominator are ordered as their numerators.
pub proof fn lemma_lt_common_den(a: Ratio, b: Ratio)
    requires
        a.den == b.den,
        a.den > 0,
    ensures
        a.lt(b) <==> a.num < b.num,
        a.le(b) <==> a.num <= b.num,
{
    let d = a.den as int;
    let x = a.num as int;
    let y = b.num as int;
    assert((x * d < y * d) <==> x < y) by (nonlinear_arith)
        requires
            d > 0,
    ;
    assert((x * d <= y * d) <==> x <= y) by (nonlinear_arith)
        requires
            d > 0,
    ;
}

} // verus!
