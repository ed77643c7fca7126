use vrandr::model::{Mode, Reflection, Rotation};
use vrandr::xrandr::{parse_output_header, parse_xrandr, XrandrError};

const SAMPLE: &str = "\
Screen 0: minimum 320 x 200, current 3840 x 1080, maximum 16384 x 16384
eDP-1 connected primary 1920x1080+0+0 (normal left inverted right x axis y axis) 309mm x 174mm
\tEDID:
\t\t00ffffffffffff0006af2d2000000000
\t\t0014010380201278ea8585a6574a9c25
\t\t125054000000010101010101010101010101010101010101
\tscaling mode: Full
\t\tsupported: None, Full, Center, Full aspect
\tnon-desktop: 0
\t\tsupported: 0, 1
\t1920x1080     165.00*+  180.00   144.00   120.00   100.00   119.88    60.00
\t1680x1050     59.95
\t1280x1024     60.02
\t1280x720      60.00
HDMI-1 connected 1920x1080+1920+0 (normal left inverted right x axis y axis) 553mm x 311mm
\tEDID:
\t\t00ffffffffffff0006af2d2000000000
\t\t0014010380201278ea8585a6574a9c25
\t\t125054000000010101010101010101010101010101010101
\t1920x1080     60.00*+  50.00
\t1920x1080i    30.00
\t1280x720      60.00
DP-1 disconnected (normal left inverted right x axis y axis)
";

#[test]
fn parse_full_sample() {
    let outs = parse_xrandr(SAMPLE).expect("parse ok");
    assert_eq!(outs.len(), 3);

    let edp = &outs[0];
    assert_eq!(edp.name, "eDP-1");
    assert!(edp.connected);
    assert!(edp.is_primary);
    assert_eq!(edp.rotation, Rotation::Normal);
    assert!(edp.edid.as_ref().unwrap().len() >= 12);

    let cur = edp.current_mode.as_ref().expect("current mode");
    assert_eq!(cur.name, "1920x1080");

    assert!(edp.available_modes.len() >= 4);

    let first = &edp.available_modes[0];
    assert_eq!(first.name, "1920x1080");
    assert_eq!(first.refresh_rate, 165_000);
    assert!(first.is_current);
    assert!(first.is_preferred);

    let same_res: Vec<&Mode> = edp
        .available_modes
        .iter()
        .filter(|m| m.name == "1920x1080")
        .collect();
    assert!(same_res.len() >= 5, "expected >=5 1920x1080 entries, got {}", same_res.len());
    let rates: Vec<i64> = same_res.iter().map(|m| m.refresh_rate).collect();
    for expected in [180_000_i64, 144_000, 120_000, 100_000, 60_000] {
        assert!(
            rates.iter().any(|r| *r == expected),
            "missing 1920x1080 @{expected}mHz, got {rates:?}"
        );
    }
    let current_count = same_res.iter().filter(|m| m.is_current).count();
    let preferred_count = same_res.iter().filter(|m| m.is_preferred).count();
    assert_eq!(current_count, 1, "exactly one entry should be current");
    assert_eq!(preferred_count, 1, "exactly one entry should be preferred");

    let hdmi = &outs[1];
    assert_eq!(hdmi.name, "HDMI-1");
    assert!(hdmi.connected);
    assert!(!hdmi.is_primary);
    assert!(hdmi.edid.is_some());

    let dp = &outs[2];
    assert_eq!(dp.name, "DP-1");
    assert!(!dp.connected);
}

#[test]
fn parse_minimal() {
    let s = "X-1 connected 800x600+0+0 (normal x y)\n";
    let outs = parse_xrandr(s).expect("parse ok");
    assert_eq!(outs.len(), 1);
    assert_eq!(outs[0].name, "X-1");
    assert_eq!(outs[0].current_mode.as_ref().unwrap().name, "800x600");
}

#[test]
fn parse_rotated() {
    let s = "VGA-1 connected 1280x1024+0+0 left (normal left inverted right x axis y axis)\n";
    let outs = parse_xrandr(s).expect("parse ok");
    assert_eq!(outs.len(), 1);
    assert_eq!(outs[0].rotation, Rotation::Left);
    assert_eq!(outs[0].reflection, Reflection::Normal);
}

#[test]
fn parse_empty() {
    let outs = parse_xrandr("").expect("parse ok");
    assert!(outs.is_empty());
}

#[test]
fn parse_multi_refresh_rates() {
    let s = "X-1 connected 1920x1080+0+0 (normal)\n\t1920x1080     165.00+  180.00*  144.00  120.00  60.00\n";
    let outs = parse_xrandr(s).expect("parse ok");
    assert_eq!(outs.len(), 1);
    let modes = &outs[0].available_modes;
    assert_eq!(modes.len(), 5);
    let rates: Vec<i64> = modes.iter().map(|m| m.refresh_rate).collect();
    assert_eq!(rates, vec![165_000, 180_000, 144_000, 120_000, 60_000]);
    let pref = modes.iter().find(|m| m.is_preferred).unwrap();
    let cur = modes.iter().find(|m| m.is_current).unwrap();
    assert_eq!(pref.refresh_rate, 165_000);
    assert_eq!(cur.refresh_rate, 180_000);
}

#[test]
fn parse_single_rate_unchanged() {
    let s = "X-1 connected 1680x1050+0+0 (normal)\n\t1680x1050     59.95\n";
    let outs = parse_xrandr(s).expect("parse ok");
    assert_eq!(outs.len(), 1);
    assert_eq!(outs[0].available_modes.len(), 1);
    let m = &outs[0].available_modes[0];
    assert_eq!(m.name, "1680x1050");
    assert_eq!(m.refresh_rate, 59_950);
    assert!(!m.is_current);
    assert!(!m.is_preferred);
}

#[test]
fn parse_position_and_current_from_geometry() {
    let outs = parse_xrandr(SAMPLE).unwrap();
    assert_eq!(outs[1].position, Some((1920, 0)));
    let cur = outs[1].current_mode.as_ref().unwrap();
    assert_eq!(cur.name, "1920x1080");
    assert_eq!(cur.refresh_rate, 60_000);
    assert!(outs[2].current_mode.is_none());
    assert!(outs[2].available_modes.is_empty());
}

#[test]
fn parse_edid_bytes_collected() {
    let outs = parse_xrandr(SAMPLE).unwrap();
    let e = outs[0].edid.as_ref().unwrap();
    assert_eq!(&e[0..8], &[0x00, 0xff, 0xff, 0xff, 0xff, 0xff, 0xff, 0x00]);
    assert_eq!(e.len(), 16 + 16 + 24);
}

#[test]
fn parse_rejects_unknown_state() {
    let r = parse_xrandr("X-1 sleeping 800x600+0+0\n");
    assert_eq!(r, Err(XrandrError::UnexpectedState("sleeping".to_string())));
    assert!(r.unwrap_err().message().contains("sleeping"));
}

#[test]
fn header_without_geometry() {
    let o = parse_output_header(&"HDMI-2 connected (normal left inverted right x axis y axis)".chars().collect::<Vec<char>>()).unwrap();
    assert_eq!(o.name, "HDMI-2");
    assert!(o.connected);
    assert!(o.position.is_none());
    assert!(o.current_mode.is_none());
}

#[test]
fn header_without_name_is_malformed() {
    let r = parse_output_header(&[]);
    assert_eq!(r, Err(XrandrError::MalformedLine(String::new())));
    assert_eq!(r.unwrap_err().message(), "malformed xrandr line: ");
}
