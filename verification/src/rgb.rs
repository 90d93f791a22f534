use crate::hsl::Hsl;
use crate::ratio::Ratio;
use vstd::prelude::*;

verus! {

/// A color in the RGB color space, with 8-bit integer channels.
#[derive(Clone, Copy, Debug, PartialEq, Eq, Structural)]
pub struct Rgb {
    /// Red channel, in [0, 255].
    pub r: u8,
    /// Green channel, in [0, 255].
    pub g: u8,
    /// Blue channel, in [0, 255].
    pub b: u8,
}

/// Rounds `a / b` (with `b > 0`) to the nearest integer, halves away
/// from zero: the rounding convention of the canonical formula.
pub open spec fn round_ratio(a: int, b: int) -> int {
    if a >= 0 {
        (2 * a + b) / (2 * b)
    } else {
        -((2 * (-a) + b) / (2 * b))
    }
}

/// Clamps a channel value to the representable range [0, 255].
pub open spec fn clamp_channel(v: int) -> int {
    if v < 0 {
        0
    } else if v > 255 {
        255
    } else {
        v
    }
}

/// The 8-bit channel for the linear-light value `n / d` (with `d > 0`):
/// scaled by 255, rounded to the nearest integer, clamped to [0, 255].
pub open spec fn spec_channel(n: int, d: int) -> int {
    clamp_channel(round_ratio(255 * n, d))
}

/// One wraparound correction of the hue offset `tn / td` into [0, 1]:
/// add a whole turn if it is negative, subtract one if it is above 1.
/// A single correction, not a full modulo, as the canonical formula has it.
pub open spec fn wrap_hue(tn: int, td: int) -> int {
    if tn < 0 {
        tn + td
    } else if tn > td {
        tn - td
    } else {
        tn
    }
}

/// The hue-rotation helper of the conversion, on exact rationals.
///
/// `p` and `q` are the two intermediate linear-light values, given as
/// numerators `pn` and `qn` over a common denominator; the hue offset `t`
/// is `tn / td` with `td > 0`. The result is the numerator of
/// `hue2rgb(p, q, t)` over the common denominator times `td`:
/// after the wraparound correction of `t`, a four-segment piecewise
/// function of `t` with breaks at 1/6, 1/2 and 2/3.
pub open spec fn spec_hue2rgb(pn: int, qn: int, tn: int, td: int) -> int {
    let t = wrap_hue(tn, td);
    if 6 * t < td {
        // t < 1/6: p + (q - p) * 6 * t
        pn * td + (qn - pn) * 6 * t
    } else if 2 * t < td {
        // t < 1/2: q
        qn * td
    } else if 3 * t < 2 * td {
        // t < 2/3: p + (q - p) * (2/3 - t) * 6
        pn * td + (qn - pn) * (4 * td - 6 * t)
    } else {
        // p
        pn * td
    }
}

/// The canonical HSL-to-RGB conversion, on exact rationals.
///
/// The hue is normalized by 360 degrees; exactly zero saturation gives the
/// achromatic gray at lightness `l`; otherwise the two intermediates
/// `q` (`l * (1 + s)` below lightness 1/2, `l + s - l * s` from 1/2 up)
/// and `p = 2 * l - q` feed the hue-rotation helper at offsets +1/3, 0 and
/// -1/3 of the normalized hue. Every rational is carried as a numerator
/// over an explicit positive denominator: `q` and `p` over `l.den * s.den`,
/// the hue offsets over `360 * h.den`.
pub open spec fn spec_from_hsl(c: Hsl) -> Rgb {
    let nh = c.h.num as int;
    let dh = c.h.den as int;
    let ns = c.s.num as int;
    let ds = c.s.den as int;
    let nl = c.l.num as int;
    let dl = c.l.den as int;
    if ns == 0 {
        let v = spec_channel(nl, dl);
        Rgb { r: v as u8, g: v as u8, b: v as u8 }
    } else {
        let qn = if 2 * nl < dl {
            nl * (ds + ns)
        } else {
            nl * ds + ns * dl - nl * ns
        };
        let pn = 2 * (nl * ds) - qn;
        let e = dl * ds;
        let td = 360 * dh;
        let rr = spec_channel(spec_hue2rgb(pn, qn, nh + 120 * dh, td), e * td);
        let gg = spec_channel(spec_hue2rgb(pn, qn, nh, td), e * td);
        let bb = spec_channel(spec_hue2rgb(pn, qn, nh - 120 * dh, td), e * td);
        Rgb { r: rr as u8, g: gg as u8, b: bb as u8 }
    }
}

/// The executable hue-rotation helper, mirroring [`spec_hue2rgb`]: the
/// numerator of `hue2rgb(p, q, t)` over the common denominator times `td`.
/// The bounds on the arguments are those the conversion supplies; under
/// them no intermediate product leaves the 128-bit range.
fn hue2rgb(pn: i128, qn: i128, tn: i128, td: i128) -> (r: i128)
    requires
        1 <= td <= 400_000_000_000,
        -5_000_000_000_000_000_000 <= pn <= 5_000_000_000_000_000_000,
        -5_000_000_000_000_000_000 <= qn <= 5_000_000_000_000_000_000,
        -200_000_000_000 <= tn <= 200_000_000_000,
    ensures
        r == spec_hue2rgb(pn as int, qn as int, tn as int, td as int),
        -100_000_000_000_000_000_000_000_000_000_000 <= r
            <= 100_000_000_000_000_000_000_000_000_000_000,
{
    let t: i128 = if tn < 0 {
        tn + td
    } else if tn > td {
        tn - td
    } else {
        tn
    };
    proof {
        assert(-2_000_000_000_000_000_000_000_000_000_000 <= pn * td
            <= 2_000_000_000_000_000_000_000_000_000_000) by (nonlinear_arith)
            requires
                -5_000_000_000_000_000_000 <= pn <= 5_000_000_000_000_000_000,
                1 <= td <= 400_000_000_000,
        ;
    }
    let base: i128 = pn * td;
    if 6 * t < td {
        let d6: i128 = (qn - pn) * 6;
        proof {
            assert(-60_000_000_000_000_000_000_000_000_000_000 <= d6 * t
                <= 60_000_000_000_000_000_000_000_000_000_000) by (nonlinear_arith)
                requires
                    -60_000_000_000_000_000_000 <= d6 <= 60_000_000_000_000_000_000,
                    -600_000_000_000 <= t <= 600_000_000_000,
            ;
        }
        base + d6 * t
    } else if 2 * t < td {
        proof {
            assert(-2_000_000_000_000_000_000_000_000_000_000 <= qn * td
                <= 2_000_000_000_000_000_000_000_000_000_000) by (nonlinear_arith)
                requires
                    -5_000_000_000_000_000_000 <= qn <= 5_000_000_000_000_000_000,
                    1 <= td <= 400_000_000_000,
            ;
        }
        qn * td
    } else if 3 * t < 2 * td {
        let w: i128 = 4 * td - 6 * t;
        proof {
            assert(-60_000_000_000_000_000_000_000_000_000_000 <= (qn - pn) * w
                <= 60_000_000_000_000_000_000_000_000_000_000) by (nonlinear_arith)
                requires
                    -10_000_000_000_000_000_000 <= qn - pn <= 10_000_000_000_000_000_000,
                    -6_000_000_000_000 <= w <= 6_000_000_000_000,
            ;
        }
        base + (qn - pn) * w
    } else {
        base
    }
}

/// The executable channel rounding, mirroring [`spec_channel`]: scales the
/// linear-light value `n / d` by 255, rounds half away from zero, clamps to
/// [0, 255]. The bounds on the arguments are those the conversion supplies.
fn channel(n: i128, d: i128) -> (r: u8)
    requires
        1 <= d <= 1_000_000_000_000_000_000_000_000_000_000,
        -100_000_000_000_000_000_000_000_000_000_000 <= n
            <= 100_000_000_000_000_000_000_000_000_000_000,
    ensures
        r as int == spec_channel(n as int, d as int),
{
    let a: i128 = 255 * n;
    if a < 0 {
        proof {
            vstd::arithmetic::div_mod::lemma_div_pos_is_pos(
                2 * -(255 * (n as int)) + d as int,
                2 * (d as int),
            );
        }
        0u8
    } else {
        let q: u128 = ((2 * a + d) as u128) / ((2 * d) as u128);
        if q > 255 {
            255u8
        } else {
            q as u8
        }
    }
}

impl Rgb {
    /// Holds the three channels verbatim; the channel width itself bounds
    /// the range, so there is no error path.
    pub fn new(r: u8, g: u8, b: u8) -> (c: Rgb)
        ensures
            c.r == r,
            c.g == g,
            c.b == b,
    {
        Rgb { r, g, b }
    }

    /// Reduces the RGB range of [0, 255] to the sRGB range of [0.0, 1.0]:
    /// each channel divided, exactly, by 255.
    ///
    /// Each returned coordinate lies in [0, 1]: its numerator is at least 0
    /// and at most its denominator.
    pub fn s_rgb(&self) -> (t: (Ratio, Ratio, Ratio))
        ensures
            t.0.num == self.r && t.0.den == 255,
            t.1.num == self.g && t.1.den == 255,
            t.2.num == self.b && t.2.den == 255,
            0 <= t.0.num <= t.0.den,
            0 <= t.1.num <= t.1.den,
            0 <= t.2.num <= t.2.den,
            t.0.wf() && t.1.wf() && t.2.wf(),
    {
        (
            Ratio::new(self.r as i64, 255),
            Ratio::new(self.g as i64, 255),
            Ratio::new(self.b as i64, 255),
        )
    }

    /// Converts from the HSL to the RGB color space, exactly per
    /// [`spec_from_hsl`]: the canonical formula on exact rationals, each
    /// channel rounded to the nearest 8-bit integer at the very end.
    ///
    /// Repeated calls on equal inputs yield equal outputs: the result is
    /// pinned to a function of the input alone.
    pub fn from(hsl: Hsl) -> (rgb: Rgb)
        requires
            hsl.wf(),
        ensures
            rgb == spec_from_hsl(hsl),
    {
        let nh: i128 = hsl.h.num as i128;
        let dh: i128 = hsl.h.den as i128;
        let ns: i128 = hsl.s.num as i128;
        let ds: i128 = hsl.s.den as i128;
        let nl: i128 = hsl.l.num as i128;
        let dl: i128 = hsl.l.den as i128;
        if ns == 0 {
            let v: u8 = channel(nl, dl);
            Rgb { r: v, g: v, b: v }
        } else {
            let qn: i128 = if 2 * nl < dl {
                proof {
                    assert(-2_000_000_000_000_000_000 <= nl * (ds + ns)
                        <= 2_000_000_000_000_000_000) by (nonlinear_arith)
                        requires
                            -1_000_000_000 <= nl <= 1_000_000_000,
                            -2_000_000_000 <= ds + ns <= 2_000_000_000,
                    ;
                }
                nl * (ds + ns)
            } else {
                proof {
                    assert({
                        &&& -1_000_000_000_000_000_000 <= nl * ds <= 1_000_000_000_000_000_000
                        &&& -1_000_000_000_000_000_000 <= ns * dl <= 1_000_000_000_000_000_000
                        &&& -1_000_000_000_000_000_000 <= nl * ns <= 1_000_000_000_000_000_000
                    }) by (nonlinear_arith)
                        requires
                            -1_000_000_000 <= nl <= 1_000_000_000,
                            -1_000_000_000 <= ns <= 1_000_000_000,
                            1 <= ds <= 1_000_000_000,
                            1 <= dl <= 1_000_000_000,
                    ;
                }
                nl * ds + ns * dl - nl * ns
            };
            proof {
                assert(-1_000_000_000_000_000_000 <= nl * ds
                    <= 1_000_000_000_000_000_000) by (nonlinear_arith)
                    requires
                        -1_000_000_000 <= nl <= 1_000_000_000,
                        1 <= ds <= 1_000_000_000,
                ;
                assert(1 <= dl * ds <= 1_000_000_000_000_000_000) by (nonlinear_arith)
                    requires
                        1 <= dl <= 1_000_000_000,
                        1 <= ds <= 1_000_000_000,
                ;
            }
            let pn: i128 = 2 * (nl * ds) - qn;
            let e: i128 = dl * ds;
            let td: i128 = 360 * dh;
            proof {
                assert(1 <= e * td <= 1_000_000_000_000_000_000_000_000_000_000)
                    by (nonlinear_arith)
                    requires
                        1 <= e <= 1_000_000_000_000_000_000,
                        1 <= td <= 400_000_000_000,
                ;
            }
            let etd: i128 = e * td;
            let rn: i128 = hue2rgb(pn, qn, nh + 120 * dh, td);
            let gn: i128 = hue2rgb(pn, qn, nh, td);
            let bn: i128 = hue2rgb(pn, qn, nh - 120 * dh, td);
            Rgb { r: channel(rn, etd), g: channel(gn, etd), b: channel(bn, etd) }
        }
    }
}

/// Law: the conversion is deterministic. Equal HSL values convert to equal
/// RGB values; since [`Rgb::from`] pins its result to [`spec_from_hsl`] of
/// its input, repeated calls with identical inputs yield identical outputs.
pub proof fn lemma_from_hsl_deterministic(a: Hsl, b: Hsl)
    requires
        a == b,
    ensures
        spec_from_hsl(a) == spec_from_hsl(b),
{
}

/// Law: a color with exactly zero saturation is an achromatic gray. All
/// three channels agree, and for lightness within [0, 1] each equals the
/// lightness scaled by 255 and rounded to the nearest integer.
pub proof fn lemma_achromatic_gray(c: Hsl)
    requires
        c.wf(),
        c.s.num == 0,
    ensures
        spec_from_hsl(c).r == spec_from_hsl(c).g,
        spec_from_hsl(c).g == spec_from_hsl(c).b,
        0 <= c.l.num <= c.l.den ==> spec_from_hsl(c).r
            == round_ratio(255 * c.l.num, c.l.den as int),
{
    let nl = c.l.num as int;
    let dl = c.l.den as int;
    if 0 <= nl <= dl {
        vstd::arithmetic::div_mod::lemma_div_pos_is_pos(2 * (255 * nl) + dl, 2 * dl);
        assert((2 * (255 * nl) + dl) / (2 * dl) <= 255) by (nonlinear_arith)
            requires
                0 <= nl <= dl,
                1 <= dl,
        ;
    }
}

/// A hue offset moved up by one whole turn of the color wheel lands on the
/// same value, as long as it starts within the turn: the single wraparound
/// correction brings it back.
proof fn lemma_hue_wrap(pn: int, qn: int, tn: int, td: int)
    requires
        1 <= td,
        0 <= tn <= td,
    ensures
        spec_hue2rgb(pn, qn, tn + td, td) == spec_hue2rgb(pn, qn, tn, td),
{
    if tn == 0 {
        assert((qn - pn) * 6 * 0 == 0) by (nonlinear_arith);
    }
}

/// Law: hue 0 and hue 360 degrees denote the same chromatic angle. Two HSL
/// values that differ only in that one has hue 0 and the other hue 360
/// convert to the same RGB value, whatever their saturation and lightness.
pub proof fn lemma_full_circle(a: Hsl, b: Hsl)
    requires
        a.wf(),
        b.wf(),
        a.h.num == 0 && a.h.den == 1,
        b.h.num == 360 && b.h.den == 1,
        a.s == b.s,
        a.l == b.l,
    ensures
        spec_from_hsl(a) == spec_from_hsl(b),
{
    if a.s.num != 0 {
        let ns = a.s.num as int;
        let ds = a.s.den as int;
        let nl = a.l.num as int;
        let dl = a.l.den as int;
        let qn = if 2 * nl < dl {
            nl * (ds + ns)
        } else {
            nl * ds + ns * dl - nl * ns
        };
        let pn = 2 * (nl * ds) - qn;
        lemma_hue_wrap(pn, qn, 120, 360);
        lemma_hue_wrap(pn, qn, 0, 360);
        assert(spec_hue2rgb(pn, qn, 360int + 120 * 1, 360) == spec_hue2rgb(pn, qn, 0int + 120 * 1, 360));
        assert(spec_hue2rgb(pn, qn, 360, 360) == spec_hue2rgb(pn, qn, 0, 360));
        assert(spec_hue2rgb(pn, qn, 360int - 120 * 1, 360) == spec_hue2rgb(pn, qn, 0int - 120 * 1, 360));
    }
}

} // verus!
