use lon::{classify_family, hex_to_rgb, rgb_to_hsl, ColorFamily, Hsl, Rgb};

#[test]
fn test_hex_to_rgb() {
    assert_eq!(hex_to_rgb("#ff0000"), Some(Rgb { r: 255, g: 0, b: 0 }));
    assert_eq!(hex_to_rgb("00ff00"), Some(Rgb { r: 0, g: 255, b: 0 }));
    assert_eq!(hex_to_rgb("#fff"), None);
}

#[test]
fn test_classify_family() {
    let red = Hsl { h: 0, s: 100000, l: 50000 };
    assert_eq!(classify_family(&red), ColorFamily::Red);

    let blue = Hsl { h: 220000, s: 100000, l: 50000 };
    assert_eq!(classify_family(&blue), ColorFamily::Blue);

    let gray = Hsl { h: 0, s: 0, l: 50000 };
    assert_eq!(classify_family(&gray), ColorFamily::Neutral);
}

#[test]
fn hex_is_case_insensitive() {
    assert_eq!(hex_to_rgb("#FfA07a"), Some(Rgb { r: 255, g: 160, b: 122 }));
    assert_eq!(hex_to_rgb("ABCDEF"), hex_to_rgb("#abcdef"));
}

#[test]
fn hex_rejects_wrong_lengths() {
    assert_eq!(hex_to_rgb(""), None);
    assert_eq!(hex_to_rgb("#"), None);
    assert_eq!(hex_to_rgb("#ff00000"), None);
    assert_eq!(hex_to_rgb("ff000"), None);
    assert_eq!(hex_to_rgb("##ff0000"), None);
}

#[test]
fn hex_rejects_non_hex_digits() {
    assert_eq!(hex_to_rgb("#ff00zz"), None);
    assert_eq!(hex_to_rgb("+f+f+f"), None);
    assert_eq!(hex_to_rgb("#ff 000"), None);
    assert_eq!(hex_to_rgb("ffé000"), None);
}

#[test]
fn hex_round_trips_through_lowercase_digits() {
    for s in ["#1a2B3c", "00ff00", "#FFFFFF", "000000", "#7f8081"] {
        let c = hex_to_rgb(s).unwrap();
        let written = format!("{:02x}{:02x}{:02x}", c.r, c.g, c.b);
        assert_eq!(written, s.trim_start_matches('#').to_lowercase());
    }
}

#[test]
fn hsl_of_pure_red() {
    assert_eq!(rgb_to_hsl(&Rgb { r: 255, g: 0, b: 0 }), Hsl { h: 0, s: 100000, l: 50000 });
}

#[test]
fn hsl_of_green_and_blue() {
    assert_eq!(rgb_to_hsl(&Rgb { r: 0, g: 255, b: 0 }), Hsl { h: 120000, s: 100000, l: 50000 });
    assert_eq!(rgb_to_hsl(&Rgb { r: 0, g: 0, b: 255 }), Hsl { h: 240000, s: 100000, l: 50000 });
}

#[test]
fn hsl_of_grays() {
    assert_eq!(rgb_to_hsl(&Rgb { r: 0, g: 0, b: 0 }), Hsl { h: 0, s: 0, l: 0 });
    assert_eq!(rgb_to_hsl(&Rgb { r: 255, g: 255, b: 255 }), Hsl { h: 0, s: 0, l: 100000 });
    assert_eq!(rgb_to_hsl(&Rgb { r: 128, g: 128, b: 128 }), Hsl { h: 0, s: 0, l: 50196 });
}

#[test]
fn hsl_rounds_down_to_thousandths() {
    // orange: hue 60 * 128 / 255 = 30.117...
    assert_eq!(rgb_to_hsl(&Rgb { r: 255, g: 128, b: 0 }), Hsl { h: 30117, s: 100000, l: 50000 });
    // red maximum with blue above green: 360 - 30.117...
    assert_eq!(rgb_to_hsl(&Rgb { r: 255, g: 0, b: 128 }), Hsl { h: 329882, s: 100000, l: 50000 });
    // dark, dull: l = 100 * 150 / 510, s = 100 * 50 / 150
    assert_eq!(rgb_to_hsl(&Rgb { r: 100, g: 75, b: 50 }), Hsl { h: 30000, s: 33333, l: 29411 });
    // light: s = 100 * 40 / (510 - 460)
    assert_eq!(rgb_to_hsl(&Rgb { r: 210, g: 250, b: 250 }), Hsl { h: 180000, s: 80000, l: 90196 });
}

#[test]
fn family_examples() {
    assert_eq!(classify_family(&Hsl { h: 0, s: 100000, l: 50000 }), ColorFamily::Red);
    assert_eq!(classify_family(&Hsl { h: 220000, s: 100000, l: 50000 }), ColorFamily::Blue);
    assert_eq!(classify_family(&Hsl { h: 0, s: 0, l: 50000 }), ColorFamily::Neutral);
}

#[test]
fn brown_boundary_is_strict() {
    assert_eq!(classify_family(&Hsl { h: 39900, s: 30000, l: 30000 }), ColorFamily::Brown);
    assert_eq!(classify_family(&Hsl { h: 39999, s: 30000, l: 30000 }), ColorFamily::Brown);
    assert_eq!(classify_family(&Hsl { h: 40000, s: 30000, l: 30000 }), ColorFamily::Orange);
    assert_eq!(classify_family(&Hsl { h: 340001, s: 30000, l: 30000 }), ColorFamily::Brown);
    assert_eq!(classify_family(&Hsl { h: 340000, s: 30000, l: 30000 }), ColorFamily::Red);
    assert_eq!(classify_family(&Hsl { h: 20000, s: 50000, l: 30000 }), ColorFamily::Orange);
    assert_eq!(classify_family(&Hsl { h: 20000, s: 30000, l: 50000 }), ColorFamily::Orange);
}

#[test]
fn neutral_thresholds() {
    assert_eq!(classify_family(&Hsl { h: 220000, s: 9999, l: 50000 }), ColorFamily::Neutral);
    assert_eq!(classify_family(&Hsl { h: 220000, s: 10000, l: 50000 }), ColorFamily::Blue);
    assert_eq!(classify_family(&Hsl { h: 220000, s: 100000, l: 4999 }), ColorFamily::Neutral);
    assert_eq!(classify_family(&Hsl { h: 220000, s: 100000, l: 5000 }), ColorFamily::Blue);
    assert_eq!(classify_family(&Hsl { h: 220000, s: 100000, l: 95001 }), ColorFamily::Neutral);
    assert_eq!(classify_family(&Hsl { h: 220000, s: 100000, l: 95000 }), ColorFamily::Blue);
}

#[test]
fn hue_buckets() {
    let cases = [
        (14999, ColorFamily::Red),
        (15000, ColorFamily::Orange),
        (45000, ColorFamily::Yellow),
        (70000, ColorFamily::Green),
        (150000, ColorFamily::Cyan),
        (190000, ColorFamily::Blue),
        (260000, ColorFamily::Purple),
        (290000, ColorFamily::Pink),
        (340000, ColorFamily::Red),
        (359999, ColorFamily::Red),
    ];
    for (h, family) in cases {
        assert_eq!(classify_family(&Hsl { h, s: 80000, l: 60000 }), family);
    }
}
