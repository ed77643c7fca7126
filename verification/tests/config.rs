use vrandr::config::{
    config_dir, config_path, edid_of, hex_decode, hex_encode, profile_names, profile_path, profiles_dir,
    serialize_with_profile_name, to_pending, validate_profile_name, LayoutConfig, PersistedOutput,
    ProfileNameError,
};
use vrandr::model::{CustomMode, Mode, Output, PendingChange, Reflection, RelativePosition, Rotation};

#[test]
fn hex_round_trip() {
    let bytes: Vec<u8> = (0u8..=255).collect();
    let s = hex_encode(&bytes);
    let back = hex_decode(&s).unwrap();
    assert_eq!(bytes, back);
}

#[test]
fn profile_name_validation() {
    assert!(validate_profile_name("home_dual").is_ok());
    assert!(validate_profile_name("work.toml").is_ok());
    assert!(validate_profile_name("a-b.c").is_ok());
    assert!(validate_profile_name("").is_err());
    assert!(validate_profile_name(".").is_err());
    assert!(validate_profile_name("..").is_err());
    assert!(validate_profile_name("../escape").is_err());
    assert!(validate_profile_name("name with space").is_err());
    assert!(validate_profile_name("name/with/slash").is_err());
    assert!(validate_profile_name("name$bad").is_err());
}

#[test]
fn hex_encode_is_lowercase_pairs() {
    assert_eq!(hex_encode(&[0x00, 0xff, 0x0a, 0xb7]), "00ff0ab7");
    assert_eq!(hex_encode(&[]), "");
}

#[test]
fn hex_decode_rejects_bad_input() {
    assert_eq!(hex_decode("00ff"), Some(vec![0x00, 0xff]));
    assert_eq!(hex_decode("AbCd"), Some(vec![0xab, 0xcd]));
    assert_eq!(hex_decode(""), Some(vec![]));
    assert_eq!(hex_decode("abc"), None);
    assert_eq!(hex_decode("zz"), None);
    assert_eq!(hex_decode("0g"), None);
}

#[test]
fn profile_name_errors_and_messages() {
    assert_eq!(validate_profile_name(""), Err(ProfileNameError::Empty));
    assert_eq!(validate_profile_name(".."), Err(ProfileNameError::Reserved));
    assert_eq!(validate_profile_name("a b"), Err(ProfileNameError::BadChar(' ')));
    assert_eq!(validate_profile_name("../x"), Err(ProfileNameError::BadChar('/')));
    assert_eq!(ProfileNameError::Empty.message(), "profile name is empty");
    assert_eq!(ProfileNameError::Reserved.message(), "profile name not allowed");
    assert_eq!(
        ProfileNameError::BadChar('$').message(),
        "profile name has disallowed character: '$'"
    );
    assert_eq!(
        ProfileNameError::BadChar('\'').message(),
        "profile name has disallowed character: '\\''"
    );
    // Non-ASCII letters are refused too.
    assert!(validate_profile_name("caf\u{e9}").is_err());
}

#[test]
fn profile_paths() {
    assert_eq!(profiles_dir("/home/u/.config/vrandr"), "/home/u/.config/vrandr/profiles");
    assert_eq!(profiles_dir("/home/u/.config/vrandr/"), "/home/u/.config/vrandr/profiles");
    assert_eq!(profile_path("/cfg/vrandr", "home"), "/cfg/vrandr/profiles/home.toml");
    assert_eq!(config_path("/cfg/vrandr"), "/cfg/vrandr/layout.toml");
    assert_eq!(profiles_dir(""), "profiles");
}

#[test]
fn profile_header_is_prepended() {
    let body = "version = 1\n";
    let s = serialize_with_profile_name(body, Some("unit_test_profile"));
    assert!(s.contains("# vrandr profile: unit_test_profile"));
    assert_eq!(
        s,
        "# vrandr profile: unit_test_profile\n# Edit by hand if needed; vrandr will not preserve unrelated fields.\nversion = 1\n"
    );
    assert_eq!(serialize_with_profile_name(body, None), body);
}

#[test]
fn profile_names_sorted_toml_stems() {
    let entries: Vec<String> = vec![
        "work.toml".into(),
        "notes.txt".into(),
        "home.toml".into(),
        ".toml".into(),
        "a.b.toml".into(),
        "toml".into(),
    ];
    assert_eq!(profile_names(&entries), vec!["a.b", "home", "work"]);
}

fn sample_output() -> Output {
    let mut o = Output::default();
    o.name = "HDMI-1".into();
    o.connected = true;
    o.current_mode = Some(Mode::new("1920x1080".into(), 60_000, true, false));
    o.is_primary = true;
    o.rotation = Rotation::Left;
    o.reflection = Reflection::X;
    o.scale = Some((1_250_000, 1_250_000));
    o.position = Some((1920, 0));
    o.relative_to = Some(("eDP-1".into(), RelativePosition::RightOf));
    o.edid = Some(vec![0x00, 0xff, 0xff, 0xff, 0xff, 0xff, 0x00, 0xaa]);
    o
}

#[test]
fn persisted_output_records_state() {
    let o = sample_output();
    let p = PersistedOutput::from_output(&o);
    assert_eq!(p.name, "HDMI-1");
    assert_eq!(p.mode.as_deref(), Some("1920x1080"));
    assert_eq!(p.rate, Some(60_000));
    assert!(p.primary);
    assert_eq!(p.rotation, Rotation::Left);
    assert_eq!(p.reflection, Reflection::X);
    assert_eq!(p.scale, Some((1_250_000, 1_250_000)));
    assert_eq!(p.position, Some((1920, 0)));
    let rel = p.relative.as_ref().unwrap();
    assert_eq!(rel.to, "eDP-1");
    assert_eq!(rel.pos, RelativePosition::RightOf);
    assert_eq!(p.edid_hex.as_deref(), Some("00ffffffffff00aa"));
    assert_eq!(edid_of(&p), o.edid);
}

#[test]
fn persisted_output_restores_as_pending() {
    let p = PersistedOutput::from_output(&sample_output());
    let c = to_pending(&p);
    assert_eq!(c.rotation, Some(Rotation::Left));
    assert_eq!(c.reflection, Some(Reflection::X));
    assert_eq!(c.scale, Some((1_250_000, 1_250_000)));
    assert_eq!(c.primary, Some(true));
    assert_eq!(c.off, None);
    let m = c.mode.as_ref().unwrap();
    assert_eq!(m.name, "1920x1080");
    assert_eq!(m.refresh_rate, 60_000);
    assert_eq!(c.relative_to, Some(Some(("eDP-1".to_string(), RelativePosition::RightOf))));
    assert_eq!(c.position, Some((1920, 0)));
}

#[test]
fn layout_collects_custom_modes_once() {
    let mut a = sample_output();
    a.custom_modes.push(CustomMode { name: "M1".into(), modeline: "1 2 3".into() });
    let mut b = Output::default();
    b.name = "DP-1".into();
    b.custom_modes.push(CustomMode { name: "M1".into(), modeline: "1 2 3".into() });
    b.custom_modes.push(CustomMode { name: "M2".into(), modeline: "4 5 6".into() });
    let cfg = LayoutConfig::from_outputs(&[a, b]);
    assert_eq!(cfg.version, 1);
    assert_eq!(cfg.outputs.len(), 2);
    let names: Vec<&str> = cfg.custom_modes.iter().map(|c| c.name.as_str()).collect();
    assert_eq!(names, vec!["M1", "M2"]);
}

#[test]
fn off_output_restores_as_off() {
    let mut o = Output::default();
    o.name = "DP-1".into();
    o.off = true;
    let c = to_pending(&PersistedOutput::from_output(&o));
    assert_eq!(c.off, Some(true));
    assert!(c.mode.is_none());
    let e = PendingChange::default();
    assert_eq!(e.off, None);
}

#[test]
fn config_dir_choice() {
    assert_eq!(config_dir(Some("/x"), Some("/home/u")), "/x/vrandr");
    assert_eq!(config_dir(None, Some("/home/u")), "/home/u/.config/vrandr");
    assert_eq!(config_dir(None, None), ".config/vrandr");
    assert_eq!(config_dir(Some(""), None), "vrandr");
}
