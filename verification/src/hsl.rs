use crate::ratio::Ratio;
use vstd::prelude::*;

verus! {

/// A color in the HSL color space, with exact rational coordinates.
#[derive(Clone, Copy, Debug, PartialEq, Eq, Structural)]
pub struct Hsl {
    /// Hue, in degrees; conventionally in [0, 360].
    pub h: Ratio,
    /// Saturation; conventionally in [0, 1].
    pub s: Ratio,
    /// Lightness; conventionally in [0, 1].
    pub l: Ratio,
}

impl Hsl {
    /// Well-formed: each coordinate is a well-formed ratio.
    pub open spec fn wf(self) -> bool {
        self.h.wf() && self.s.wf() && self.l.wf()
    }

    /// Holds the three coordinates verbatim: no validation, no clamping.
    /// Out-of-convention coordinates are accepted; the conversion handles
    /// them gracefully.
    pub fn new(h: Ratio, s: Ratio, l: Ratio) -> (r: Hsl)
        ensures
            r.h == h,
            r.s == s,
            r.l == l,
            h.wf() && s.wf() && l.wf() ==> r.wf(),
    {
        Hsl { h, s, l }
    }
}

} // verus!
