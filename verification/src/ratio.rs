use vstd::prelude::*;

verus! {

/// Largest magnitude allowed for the numerator and the denominator of a
/// coordinate: wide enough for any practical color coordinate, small enough
/// that the conversion's intermediate products fit in 128-bit arithmetic.
pub const COORD_LIMIT: i64 = 1_000_000_000;

/// An exact rational number `num / den` with a positive denominator.
///
/// HSL coordinates are real numbers; this type carries them exactly, so the
/// conversion can branch on exact comparisons (for example the exact test
/// for zero saturation) instead of approximate ones.
#[derive(Clone, Copy, Debug, PartialEq, Eq, Structural)]
pub struct Ratio {
    /// Numerator; the sign of the number.
    pub num: i64,
    /// Denominator; positive by convention (see [`Ratio::wf`]).
    pub den: i64,
}

impl Ratio {
    /// Well-formed: the denominator is positive and both parts lie within
    /// [`COORD_LIMIT`], the bound under which the conversion's intermediate
    /// arithmetic cannot overflow.
    pub open spec fn wf(self) -> bool {
        &&& 1 <= self.den <= COORD_LIMIT
        &&& -COORD_LIMIT <= self.num <= COORD_LIMIT
    }

    /// The rational number `num / den`, held verbatim.
    pub fn new(num: i64, den: i64) -> (r: Ratio)
        requires
            1 <= den <= COORD_LIMIT,
            -COORD_LIMIT <= num <= COORD_LIMIT,
        ensures
            r.num == num,
            r.den == den,
            r.wf(),
    {
        Ratio { num, den }
    }
}

} // verus!
