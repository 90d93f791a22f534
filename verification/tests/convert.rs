use hsl_ish::Hsl;
use hsl_ish::Ratio;
use hsl_ish::Rgb;

/// Converts the HSL color with the given rational coordinates and returns
/// the three RGB channels.
fn convert(h: (i64, i64), s: (i64, i64), l: (i64, i64)) -> (u8, u8, u8) {
    let c = Hsl::new(
        Ratio::new(h.0, h.1),
        Ratio::new(s.0, s.1),
        Ratio::new(l.0, l.1),
    );
    let rgb = Rgb::from(c);
    (rgb.r, rgb.g, rgb.b)
}

#[test]
fn test0() {
    assert_eq!(convert((0, 1), (0, 1), (0, 1)), (0, 0, 0));
}

#[test]
fn test1() {
    assert_eq!(convert((0, 1), (0, 1), (1, 1)), (255, 255, 255));
}

#[test]
fn test2() {
    assert_eq!(convert((0, 1), (1, 1), (1, 2)), (255, 0, 0));
}

#[test]
fn test3() {
    assert_eq!(convert((120, 1), (1, 1), (1, 2)), (0, 255, 0));
}

#[test]
fn test4() {
    assert_eq!(convert((240, 1), (1, 1), (1, 2)), (0, 0, 255));
}

#[test]
fn test5() {
    assert_eq!(convert((60, 1), (1, 1), (1, 2)), (255, 255, 0));
}

#[test]
fn test6() {
    assert_eq!(convert((180, 1), (1, 1), (1, 2)), (0, 255, 255));
}

#[test]
fn test7() {
    assert_eq!(convert((300, 1), (1, 1), (1, 2)), (255, 0, 255));
}

#[test]
fn test8() {
    assert_eq!(convert((0, 1), (0, 1), (3, 4)), (191, 191, 191));
}

#[test]
fn test9() {
    assert_eq!(convert((0, 1), (0, 1), (1, 2)), (128, 128, 128));
}

#[test]
fn test10() {
    assert_eq!(convert((0, 1), (1, 1), (1, 4)), (128, 0, 0));
}

#[test]
fn test11() {
    assert_eq!(convert((60, 1), (1, 1), (1, 4)), (128, 128, 0));
}

#[test]
fn test12() {
    assert_eq!(convert((120, 1), (1, 1), (1, 4)), (0, 128, 0));
}

#[test]
fn test13() {
    assert_eq!(convert((300, 1), (1, 1), (1, 4)), (128, 0, 128));
}

#[test]
fn test14() {
    assert_eq!(convert((180, 1), (1, 1), (1, 4)), (0, 128, 128));
}

#[test]
fn test15() {
    assert_eq!(convert((240, 1), (1, 1), (1, 4)), (0, 0, 128));
}

#[test]
fn hue_360_equals_hue_0() {
    let at_zero = convert((0, 1), (1, 1), (1, 2));
    let at_full = convert((360, 1), (1, 1), (1, 2));
    assert_eq!(at_zero, at_full);
    assert_eq!(at_full, (255, 0, 0));
}

#[test]
fn repeated_conversion_is_identical() {
    let first = convert((217, 1), (3, 7), (22, 100));
    let second = convert((217, 1), (3, 7), (22, 100));
    assert_eq!(first, second);
}

#[test]
fn achromatic_third_lightness() {
    // 255 * 1/3 = 85 exactly: a gray no binary floating-point lightness hits.
    assert_eq!(convert((45, 1), (0, 1), (1, 3)), (85, 85, 85));
}

#[test]
fn achromatic_rounds_half_away_from_zero() {
    // 255 * 201/510 = 100.5 rounds up to 101.
    assert_eq!(convert((0, 1), (0, 1), (201, 510)), (101, 101, 101));
}

#[test]
fn negative_lightness_clamps_to_black() {
    assert_eq!(convert((0, 1), (0, 1), (-1, 2)), (0, 0, 0));
}

#[test]
fn overbright_lightness_clamps_to_white() {
    assert_eq!(convert((0, 1), (0, 1), (2, 1)), (255, 255, 255));
}

#[test]
fn non_dyadic_chromatic_color() {
    // h = 90, s = 1/3, l = 1/3: q = 4/9, p = 2/9.
    // r' at t = 7/12, third segment: p + (q - p) * (2/3 - 7/12) * 6 = 1/3
    //   -> round(255/3) = 85
    // g' at t = 1/4, second segment: q = 4/9 -> round(1020/9) = 113
    // b' at t = 11/12, last segment: p = 2/9 -> round(510/9) = 57
    assert_eq!(convert((90, 1), (1, 3), (1, 3)), (85, 113, 57));
}
