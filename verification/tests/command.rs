use vrandr::command::{build_command, change_to_args, make_relative, materialize, preview_command};
use vrandr::model::{CustomMode, Mode, Output, PendingChange, Reflection, RelativePosition, Rotation};
use vrandr::pending::PendingMap;

#[test]
fn change_to_args_mode() {
    let mut c = PendingChange::default();
    c.mode = Some(Mode::new("1920x1080".into(), 60_000, true, false));
    let args = change_to_args(&c);
    assert_eq!(args, vec!["--mode", "1920x1080", "--rate", "60.000"]);
}

#[test]
fn change_to_args_off_short_circuits() {
    let mut c = PendingChange::default();
    c.off = Some(true);
    c.rotation = Some(Rotation::Left); // should be ignored
    let args = change_to_args(&c);
    assert_eq!(args, vec!["--off"]);
}

#[test]
fn change_to_args_auto() {
    let mut c = PendingChange::default();
    c.off = Some(false);
    let args = change_to_args(&c);
    assert_eq!(args, vec!["--auto"]);
}

#[test]
fn auto_overrides_with_mode() {
    let mut c = PendingChange::default();
    c.off = Some(false);
    c.mode = Some(Mode::new("1920x1080".into(), 60_000, true, false));
    let args = change_to_args(&c);
    assert!(args.contains(&"--auto".to_string()));
    assert!(args.contains(&"--mode".to_string()));
    assert!(args.contains(&"1920x1080".to_string()));
}

#[test]
fn pressing_d_then_p_resolves_to_auto() {
    let mut c = PendingChange::default();
    c.off = Some(true);
    c.off = Some(false);
    let args = change_to_args(&c);
    assert_eq!(args, vec!["--auto"]);
}

#[test]
fn change_to_args_full() {
    let mut c = PendingChange::default();
    c.mode = Some(Mode::new("1280x720".into(), 60_000, true, false));
    c.primary = Some(true);
    c.rotation = Some(Rotation::Right);
    c.reflection = Some(Reflection::Xy);
    c.scale = Some((1_250_000, 1_250_000));
    c.gamma = Some((1_000_000, 900_000, 800_000));
    c.position = Some((100, 50));
    c.relative_to = Some(Some(("eDP-1".into(), RelativePosition::RightOf)));
    let args = change_to_args(&c);
    assert!(args.contains(&"--primary".to_string()));
    assert!(args.contains(&"--rotate".to_string()));
    assert!(args.contains(&"right".to_string()));
    assert!(args.contains(&"--reflect".to_string()));
    assert!(args.contains(&"xy".to_string()));
    assert!(args.contains(&"--scale".to_string()));
    assert!(args.contains(&"1.25x1.25".to_string()));
    assert!(args.contains(&"--gamma".to_string()));
    assert!(args.contains(&"1:0.9:0.8".to_string()));
    assert!(args.contains(&"--pos".to_string()));
    assert!(args.contains(&"100x50".to_string()));
    assert!(args.contains(&"--right-of".to_string()));
    assert!(args.contains(&"eDP-1".to_string()));
}

#[test]
fn reflection_normal_is_emitted() {
    let mut c = PendingChange::default();
    c.reflection = Some(Reflection::Normal);
    let args = change_to_args(&c);
    assert!(args.contains(&"--reflect".to_string()));
    assert!(args.contains(&"normal".to_string()));
}

#[test]
fn build_command_orders_newmode_first() {
    let mut p: PendingMap = PendingMap::new();
    let mut c = PendingChange::default();
    c.mode = Some(Mode::new("CustomMode".into(), 60_000, true, false));
    c.custom_modes.push(CustomMode {
        name: "CustomMode".into(),
        modeline: "83.5 1920 1936 1960 2000 1080 1083 1088 1122 -hsync +vsync".into(),
    });
    p.insert("HDMI-1".into(), c);
    let args = build_command(&p);
    let newmode_idx = args.iter().position(|a| a == "--newmode").unwrap();
    let output_idx = args.iter().position(|a| a == "--output").unwrap();
    assert!(newmode_idx < output_idx);
}

#[test]
fn materialize_merges_into_base() {
    let mut base = Output::default();
    base.name = "HDMI-1".into();
    base.connected = true;
    let mut c = PendingChange::default();
    c.off = Some(true);
    c.rotation = Some(Rotation::Left);
    let merged = materialize(&base, &c);
    assert!(merged.off);
    assert_eq!(merged.rotation, Rotation::Left);
    assert_eq!(merged.name, "HDMI-1");
}

#[test]
fn change_to_args_exact_order() {
    let mut c = PendingChange::default();
    c.off = Some(false);
    c.mode = Some(Mode::new("1280x720".into(), 59_940, true, false));
    c.primary = Some(true);
    c.rotation = Some(Rotation::Left);
    c.reflection = Some(Reflection::X);
    c.scale = Some((500_000, 1_000_000));
    c.scale_from = Some((1_920_000_000, 1_080_000_000));
    c.gamma = Some((1_000_000, 1_000_000, 1_100_000));
    c.position = Some((-10, 20));
    c.panning = Some((3840, 2160));
    c.relative_to = Some(Some(("DP-1".into(), RelativePosition::SameAs)));
    assert_eq!(
        change_to_args(&c),
        vec![
            "--auto", "--mode", "1280x720", "--rate", "59.940", "--primary", "--rotate", "left",
            "--reflect", "x", "--scale", "0.5x1", "--scale-from", "1920x1080", "--gamma",
            "1:1:1.1", "--pos", "-10x20", "--panning", "3840x2160", "--same-as", "DP-1",
        ]
    );
}

#[test]
fn zero_rate_emits_no_rate_flag() {
    let mut c = PendingChange::default();
    c.mode = Some(Mode::new("800x600".into(), 0, true, false));
    assert_eq!(change_to_args(&c), vec!["--mode", "800x600"]);
}

#[test]
fn relative_none_emits_nothing() {
    let mut c = PendingChange::default();
    c.relative_to = Some(None);
    assert!(change_to_args(&c).is_empty());
    assert!(change_to_args(&PendingChange::default()).is_empty());
}

#[test]
fn build_command_empty_and_preview_placeholder() {
    let p = PendingMap::new();
    assert!(build_command(&p).is_empty());
    assert_eq!(preview_command(&p), "xrandr  (no pending changes)");
}

#[test]
fn build_command_one_block_per_output_in_staging_order() {
    let mut p = PendingMap::new();
    let mut a = PendingChange::default();
    a.off = Some(true);
    let mut b = PendingChange::default();
    b.primary = Some(true);
    p.insert("HDMI-1".into(), a);
    p.insert("eDP-1".into(), b);
    assert_eq!(
        build_command(&p),
        vec!["--output", "HDMI-1", "--off", "--output", "eDP-1", "--primary"]
    );
    // A change that shows nothing gets no block.
    let mut q = PendingMap::new();
    let mut r = PendingChange::default();
    r.primary = Some(false);
    q.insert("DP-1".into(), r);
    assert!(build_command(&q).is_empty());
    assert_eq!(
        preview_command(&p),
        "xrandr --output HDMI-1 --off --output eDP-1 --primary"
    );
}

#[test]
fn build_command_newmode_once_per_name() {
    let mut p = PendingMap::new();
    let cm = || CustomMode { name: "M1".into(), modeline: "83.5 1920 1936".into() };
    let mut a = PendingChange::default();
    a.custom_modes.push(cm());
    let mut b = PendingChange::default();
    b.custom_modes.push(cm());
    p.insert("HDMI-1".into(), a);
    p.insert("DP-1".into(), b);
    let args = build_command(&p);
    assert_eq!(args.iter().filter(|a| *a == "--newmode").count(), 1);
    assert_eq!(
        args,
        vec!["--newmode", "M1", "83.5 1920 1936", "--output", "HDMI-1", "--output", "DP-1"]
    );
}

#[test]
fn make_relative_sets_placement() {
    let mut c = PendingChange::default();
    make_relative(&mut c, "eDP-1", RelativePosition::Above);
    assert_eq!(c.relative_to, Some(Some(("eDP-1".to_string(), RelativePosition::Above))));
}

#[test]
fn materialize_keeps_unstaged_fields() {
    let mut base = Output::default();
    base.name = "eDP-1".into();
    base.current_mode = Some(Mode::new("1920x1080".into(), 60_000, true, true));
    base.rotation = Rotation::Inverted;
    base.is_primary = true;
    let mut c = PendingChange::default();
    c.scale = Some((2_000_000, 2_000_000));
    c.primary = Some(false);
    let m = materialize(&base, &c);
    assert_eq!(m.rotation, Rotation::Inverted);
    assert!(m.is_primary);
    assert_eq!(m.scale, Some((2_000_000, 2_000_000)));
    assert_eq!(m.current_mode.as_ref().unwrap().name, "1920x1080");
    let mut off = PendingChange::default();
    off.off = Some(true);
    assert!(materialize(&base, &off).current_mode.is_none());
}
