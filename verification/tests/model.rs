use vrandr::model::{
    parse_refresh_rate, parse_resolution, CustomMode, Mode, Output, PendingChange, Reflection,
    RelativePosition, Rotation,
};

#[test]
fn parse_resolution_ok() {
    assert_eq!(parse_resolution("1920x1080"), Some((1920, 1080)));
    assert_eq!(parse_resolution(" 800x600 "), Some((800, 600)));
}

#[test]
fn parse_resolution_fail() {
    assert!(parse_resolution("abc").is_none());
    assert!(parse_resolution("1920").is_none());
}

#[test]
fn parse_refresh_rate_ok() {
    // Rates are kept in thousandths of a hertz.
    assert_eq!(parse_refresh_rate("60.00*"), Some(60_000));
    assert_eq!(parse_refresh_rate("59.94+"), Some(59_940));
}

#[test]
fn rotation_cycle() {
    assert_eq!(Rotation::Normal.next(), Rotation::Left);
    assert_eq!(Rotation::Inverted.next(), Rotation::Normal);
}

#[test]
fn reflection_cycle() {
    assert_eq!(Reflection::Normal.next(), Reflection::X);
    assert_eq!(Reflection::Xy.next(), Reflection::Normal);
}

#[test]
fn pending_change_empty() {
    let p = PendingChange::default();
    assert!(p.is_empty());
    assert!(!p.has_visible_change());
}

#[test]
fn rotation_cycle_has_period_four() {
    for r in [Rotation::Normal, Rotation::Left, Rotation::Right, Rotation::Inverted] {
        assert_eq!(r.next().next().next().next(), r);
        assert_ne!(r.next(), r);
    }
    assert_eq!(Rotation::Left.next(), Rotation::Right);
    assert_eq!(Rotation::Right.next(), Rotation::Inverted);
}

#[test]
fn reflection_cycle_has_period_four() {
    for r in [Reflection::Normal, Reflection::X, Reflection::Y, Reflection::Xy] {
        assert_eq!(r.next().next().next().next(), r);
        assert_ne!(r.next(), r);
    }
}

#[test]
fn enum_names_are_lowercase() {
    assert_eq!(Rotation::Left.as_str(), "left");
    assert_eq!(Rotation::Inverted.as_str(), "inverted");
    assert_eq!(Reflection::X.as_str(), "x");
    assert_eq!(Reflection::Xy.as_str(), "xy");
    assert_eq!(Reflection::Normal.as_str(), "normal");
    assert_eq!(RelativePosition::RightOf.as_str(), "right-of");
    assert_eq!(RelativePosition::LeftOf.as_str(), "left-of");
    assert_eq!(RelativePosition::Above.as_str(), "above");
    assert_eq!(RelativePosition::Below.as_str(), "below");
    assert_eq!(RelativePosition::SameAs.as_str(), "same-as");
}

#[test]
fn defaults_are_normal() {
    assert_eq!(Rotation::default(), Rotation::Normal);
    assert_eq!(Reflection::default(), Reflection::Normal);
}

#[test]
fn parse_resolution_rejects_junk() {
    assert!(parse_resolution("x1080").is_none());
    assert!(parse_resolution("1920x").is_none());
    assert!(parse_resolution("1920x1080x1").is_none());
    assert!(parse_resolution("-1x5").is_none());
    assert!(parse_resolution("99999999999x1").is_none());
    assert_eq!(parse_resolution("+1920x+1080"), Some((1920, 1080)));
}

#[test]
fn parse_refresh_rate_forms() {
    assert_eq!(parse_refresh_rate("165.00*+"), Some(165_000));
    assert_eq!(parse_refresh_rate("59.95"), Some(59_950));
    assert_eq!(parse_refresh_rate("60"), Some(60_000));
    // Rounded to the nearest thousandth.
    assert_eq!(parse_refresh_rate("59.9405"), Some(59_941));
    assert_eq!(parse_refresh_rate("59.9404"), Some(59_940));
    assert!(parse_refresh_rate("abc").is_none());
    assert!(parse_refresh_rate("").is_none());
    assert!(parse_refresh_rate("*").is_none());
}

#[test]
fn mode_new_derives_dimensions() {
    let m = Mode::new("1920x1080".to_string(), 60_000, true, false);
    assert_eq!(m.width, 1920);
    assert_eq!(m.height, 1080);
    let c = Mode::new("CustomMode".to_string(), 60_000, false, false);
    assert_eq!(c.width, 0);
    assert_eq!(c.height, 0);
}

#[test]
fn mode_label_pads_name_and_rate() {
    let m = Mode::new("1920x1080".to_string(), 60_000, true, false);
    assert_eq!(m.label(), "1920x1080    60.00Hz");
    let m = Mode::new("800x600".to_string(), 144_000, false, false);
    assert_eq!(m.label(), "800x600     144.00Hz");
}

#[test]
fn status_label_forms() {
    let mut o = Output::default();
    assert_eq!(o.status_label(), "(no mode)");
    o.current_mode = Some(Mode::new("1920x1080".to_string(), 59_940, true, false));
    assert_eq!(o.status_label(), "1920x1080 @ 59.94");
    o.off = true;
    assert_eq!(o.status_label(), "off");
}

#[test]
fn visible_change_ignores_primary_false_and_custom_modes() {
    let mut c = PendingChange::default();
    c.primary = Some(false);
    assert!(!c.has_visible_change());
    assert!(!c.is_empty());
    let mut c = PendingChange::default();
    c.custom_modes.push(CustomMode { name: "M".to_string(), modeline: "1 2 3".to_string() });
    assert!(!c.has_visible_change());
    let mut c = PendingChange::default();
    c.rotation = Some(Rotation::Left);
    assert!(c.has_visible_change());
}

#[test]
fn resolution_names_read_back() {
    for (w, h) in [(0u32, 0u32), (1920, 1080), (u32::MAX, 7), (800, 600)] {
        assert_eq!(parse_resolution(&format!("{w}x{h}")), Some((w, h)));
    }
}
