use vrandr::edid::{decode_manufacturer, EdidInfo};

fn minimal_edid() -> Vec<u8> {
    let mut v = vec![0u8; 128];
    v[0..8].copy_from_slice(b"\x00\xff\xff\xff\xff\xff\xff\x00");
    v[18] = 1;
    v[19] = 4;
    v
}

#[test]
fn decode_manufacturer_known() {
    assert_eq!(decode_manufacturer(&[0x10, 0xac]), "DEL");
    assert_eq!(decode_manufacturer(&[0x4c, 0x2d]), "SAM");
}

#[test]
fn parse_too_short() {
    assert!(EdidInfo::parse(&[0u8; 64]).is_none());
}

#[test]
fn parse_bad_header() {
    let mut v = minimal_edid();
    v[0] = 0x42;
    assert!(EdidInfo::parse(&v).is_none());
}

#[test]
fn parse_minimal_ok() {
    let mut v = vec![0u8; 128];
    v[0..8].copy_from_slice(b"\x00\xff\xff\xff\xff\xff\xff\x00");
    v[8] = 0x04;
    v[9] = 0x21;
    v[18] = 1;
    v[19] = 4;
    let info = EdidInfo::parse(&v).expect("parses");
    assert_eq!(info.version, Some((1, 4)));
    assert_eq!(info.manufacturer.as_deref(), Some("AAA"));
    assert!(info.serial.is_none());
    assert_eq!(info.width_cm, 0);
    assert_eq!(info.height_cm, 0);
}

#[test]
fn parse_with_dimensions_and_gamma() {
    let mut v = minimal_edid();
    v[21] = 60;
    v[22] = 34;
    v[23] = 1;
    v[24] = 120;
    let info = EdidInfo::parse(&v).expect("parses");
    assert_eq!(info.width_cm, 60);
    assert_eq!(info.height_cm, 34);
    assert_eq!(info.gamma, Some(120));
    let lines = info.summary_lines();
    assert!(lines.iter().any(|l| l.contains("60 x 34 cm")));
    assert!(lines.iter().any(|l| l.contains("Gamma:               2.20")));
}

#[test]
fn parse_with_serial() {
    let mut v = minimal_edid();
    v[12..16].copy_from_slice(&0x12345678u32.to_le_bytes());
    let info = EdidInfo::parse(&v).expect("parses");
    assert_eq!(info.serial.as_deref(), Some("305419896"));
}

#[test]
fn summary_well_formed() {
    let v = minimal_edid();
    let info = EdidInfo::parse(&v).unwrap();
    let mut buf = String::new();
    for l in info.summary_lines() {
        buf.push_str(&l);
        buf.push('\n');
    }
    assert!(buf.contains("EDID version:        1.4"));
}

#[test]
fn decode_manufacturer_unknown_letters() {
    // All-zero letters are outside A..Z.
    assert_eq!(decode_manufacturer(&[0x00, 0x00]), "???");
    // Too short to hold a vendor ID.
    assert_eq!(decode_manufacturer(&[0x10]), "???");
}

#[test]
fn parse_ignores_trailing_extension_blocks() {
    let mut v = minimal_edid();
    v.extend(std::iter::repeat(0xee).take(128));
    let info = EdidInfo::parse(&v).expect("parses");
    assert_eq!(info.version, Some((1, 4)));
}

#[test]
fn parse_product_code_and_unset_gamma() {
    let mut v = minimal_edid();
    v[10] = 0x2d;
    v[11] = 0x20;
    v[24] = 0xff;
    let info = EdidInfo::parse(&v).expect("parses");
    assert_eq!(info.gamma, None);
    assert_eq!(info.product_code.as_deref(), Some("0x202d"));
    let lines = info.summary_lines();
    assert!(lines.iter().any(|l| l == "Product code:        0x202d"));
    assert!(!lines.iter().any(|l| l.starts_with("Gamma")));
}
