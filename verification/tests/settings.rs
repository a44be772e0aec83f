use edges::settings::{
    order_from_name, parse_hex, str_eq, style_from_name, BorderOrder, BorderStyle, ColorSpec,
    ConfigFile, Settings, WindowColors,
};

fn bits(x: f32) -> u32 {
    x.to_bits()
}

#[test]
fn test_default_settings() {
    let settings = Settings::default();
    assert_eq!(f32::from_bits(settings.width_bits), 4.0);
    assert!(!settings.hidpi);
}

#[test]
fn test_corner_radius() {
    let round = Settings { style: BorderStyle::Round, ..Default::default() };
    let square = Settings { style: BorderStyle::Square, ..Default::default() };
    let uniform = Settings { style: BorderStyle::Uniform, ..Default::default() };

    assert_eq!(f32::from_bits(round.corner_radius(bits(12.0))), 12.0);
    assert_eq!(f32::from_bits(square.corner_radius(bits(12.0))), 0.0);
    assert_eq!(f32::from_bits(uniform.corner_radius(bits(12.0))), 9.0);
}

#[test]
fn default_settings_match_documented_defaults() {
    let s = Settings::default();
    assert_eq!(s.style, BorderStyle::Round);
    assert_eq!(s.border_order, BorderOrder::Below);
    assert_eq!(s.colors.active, ColorSpec::Solid { color: 0xffe1e3e4 });
    assert_eq!(s.colors.inactive, ColorSpec::Solid { color: 0x00000000 });
    assert_eq!(s.colors.background, None);
    assert_eq!(f32::from_bits(s.blur_radius_bits), 0.0);
    assert!(!s.show_background);
    assert!(s.blacklist.is_empty());
    assert!(s.whitelist.is_empty());
}

#[test]
fn default_enums() {
    assert_eq!(BorderStyle::default(), BorderStyle::Round);
    assert_eq!(BorderOrder::default(), BorderOrder::Below);
}

#[test]
fn parse_hex_accepts_argb_with_prefix() {
    assert_eq!(parse_hex("0xffe2e2e3"), Some(0xffe2e2e3));
    assert_eq!(parse_hex("0xff414550"), Some(0xff414550));
    assert_eq!(parse_hex("0XFF00FF00"), Some(0xff00ff00));
    assert_eq!(parse_hex("0x00000000"), Some(0));
}

#[test]
fn parse_hex_accepts_bare_digits_and_plus() {
    assert_eq!(parse_hex("ff"), Some(255));
    assert_eq!(parse_hex("AbC"), Some(0xabc));
    assert_eq!(parse_hex("+1f"), Some(31));
    assert_eq!(parse_hex("0x+1f"), Some(31));
}

#[test]
fn parse_hex_strips_repeated_prefixes() {
    assert_eq!(parse_hex("0x0x10"), Some(16));
    assert_eq!(parse_hex("0x0X10"), Some(16));
    assert_eq!(parse_hex("0X0x10"), None);
    assert_eq!(parse_hex("0x"), None);
}

#[test]
fn parse_hex_rejects_bad_input() {
    assert_eq!(parse_hex(""), None);
    assert_eq!(parse_hex("+"), None);
    assert_eq!(parse_hex("-1"), None);
    assert_eq!(parse_hex("0xfg"), None);
    assert_eq!(parse_hex("0x 1"), None);
    assert_eq!(parse_hex("1ffffffff"), None);
    assert_eq!(parse_hex("ffffffff"), Some(u32::MAX));
    assert_eq!(parse_hex("00000000ffffffff"), Some(u32::MAX));
    assert_eq!(parse_hex("é"), None);
}

#[test]
fn parse_hex_agrees_with_std() {
    let samples = ["0", "7", "10", "deadBEEF", "+ff", "fffffffff", "", "+", "-0", "x1", "0x0x0X3"];
    for s in samples.iter() {
        let t = s.trim_start_matches("0x").trim_start_matches("0X");
        assert_eq!(parse_hex(s), u32::from_str_radix(t, 16).ok(), "{}", s);
    }
}

#[test]
fn names_select_style_and_order() {
    assert_eq!(style_from_name("round"), Some(BorderStyle::Round));
    assert_eq!(style_from_name("square"), Some(BorderStyle::Square));
    assert_eq!(style_from_name("uniform"), Some(BorderStyle::Uniform));
    assert_eq!(style_from_name("Round"), None);
    assert_eq!(order_from_name("above"), Some(BorderOrder::Above));
    assert_eq!(order_from_name("below"), Some(BorderOrder::Below));
    assert_eq!(order_from_name("over"), None);
    assert!(str_eq("abc", "abc"));
    assert!(!str_eq("abc", "abd"));
    assert!(!str_eq("abc", "ab"));
}

fn config(style: Option<&str>, width: Option<f32>, hidpi: Option<bool>, active: Option<&str>, inactive: Option<&str>, order: Option<&str>) -> ConfigFile {
    ConfigFile {
        style: style.map(|s| s.to_string()),
        width_bits: width.map(|w| w.to_bits()),
        hidpi,
        active_color: active.map(|s| s.to_string()),
        inactive_color: inactive.map(|s| s.to_string()),
        order: order.map(|s| s.to_string()),
    }
}

#[test]
fn apply_overrides_present_keys() {
    let mut s = Settings::default();
    let cfg = config(Some("square"), Some(6.0), Some(true), Some("0xffe2e2e3"), Some("0xff414550"), Some("above"));
    cfg.apply(&mut s);
    assert_eq!(s.style, BorderStyle::Square);
    assert_eq!(f32::from_bits(s.width_bits), 6.0);
    assert!(s.hidpi);
    assert_eq!(s.colors.active, ColorSpec::Solid { color: 0xffe2e2e3 });
    assert_eq!(s.colors.inactive, ColorSpec::Solid { color: 0xff414550 });
    assert_eq!(s.border_order, BorderOrder::Above);
}

#[test]
fn apply_keeps_values_for_unknown_names_and_bad_colors() {
    let mut s = Settings::default();
    s.colors = WindowColors {
        active: ColorSpec::Gradient { start: 1, end: 2, angle_bits: bits(45.0) },
        inactive: ColorSpec::Solid { color: 7 },
        background: Some(3),
    };
    let cfg = config(Some("fancy"), None, None, Some("red"), Some("0x"), Some("sideways"));
    cfg.apply(&mut s);
    assert_eq!(s.style, BorderStyle::Round);
    assert_eq!(f32::from_bits(s.width_bits), 4.0);
    assert_eq!(s.colors.active, ColorSpec::Gradient { start: 1, end: 2, angle_bits: bits(45.0) });
    assert_eq!(s.colors.inactive, ColorSpec::Solid { color: 7 });
    assert_eq!(s.colors.background, Some(3));
    assert_eq!(s.border_order, BorderOrder::Below);
}

#[test]
fn apply_empty_config_changes_nothing() {
    let mut s = Settings::default();
    s.blacklist.push("Finder".to_string());
    ConfigFile::default().apply(&mut s);
    assert_eq!(s.style, BorderStyle::Round);
    assert_eq!(s.blacklist, vec!["Finder".to_string()]);
    assert!(!s.hidpi);
}

#[test]
fn apply_twice_is_apply_once() {
    let cfg = config(Some("uniform"), Some(2.5), Some(false), Some("0x11223344"), None, Some("above"));
    let mut once = Settings::default();
    cfg.apply(&mut once);
    let mut twice = Settings::default();
    cfg.apply(&mut twice);
    cfg.apply(&mut twice);
    assert_eq!(once.style, twice.style);
    assert_eq!(once.width_bits, twice.width_bits);
    assert_eq!(once.hidpi, twice.hidpi);
    assert_eq!(once.colors, twice.colors);
    assert_eq!(once.border_order, twice.border_order);
}

#[test]
fn later_config_wins_over_earlier() {
    let file = config(Some("square"), Some(3.0), Some(true), Some("0x11111111"), Some("0x22222222"), Some("above"));
    let cli = config(Some("uniform"), None, None, Some("0x33333333"), Some("bogus"), None);
    let mut s = Settings::default();
    file.apply(&mut s);
    cli.apply(&mut s);
    assert_eq!(s.style, BorderStyle::Uniform);
    assert_eq!(f32::from_bits(s.width_bits), 3.0);
    assert!(s.hidpi);
    assert_eq!(s.colors.active, ColorSpec::Solid { color: 0x33333333 });
    assert_eq!(s.colors.inactive, ColorSpec::Solid { color: 0x22222222 });
    assert_eq!(s.border_order, BorderOrder::Above);
}

#[test]
fn leading_0x_does_not_change_value() {
    for s in ["ff", "+10", "0X7", "", "zz", "0x0x1"].iter() {
        let prefixed = format!("0x{}", s);
        assert_eq!(parse_hex(&prefixed), parse_hex(s), "{}", s);
    }
    for s in ["ff", "+10", "", "zz"].iter() {
        let prefixed = format!("0X{}", s);
        assert_eq!(parse_hex(&prefixed), parse_hex(s), "{}", s);
    }
}

#[test]
fn written_colors_parse_back() {
    for v in [0u32, 1, 0xffe1e3e4, 0x00000000, 0xdeadbeef, u32::MAX, 0x0000000f].iter() {
        assert_eq!(parse_hex(&format!("0x{:08x}", v)), Some(*v));
    }
}
