use vrandr::float_text::{parse_float_micro, FLOAT_CAP};

fn read(s: &str) -> Option<i64> {
    parse_float_micro(&s.chars().collect::<Vec<char>>())
}

#[test]
fn float_text_forms() {
    assert_eq!(read("1.25"), Some(1_250_000));
    assert_eq!(read("-1.25"), Some(-1_250_000));
    assert_eq!(read(".5"), Some(500_000));
    assert_eq!(read("2."), Some(2_000_000));
    assert_eq!(read("1e0"), Some(1_000_000));
    assert_eq!(read("125E-2"), Some(1_250_000));
    assert_eq!(read("0.0000005"), Some(1));
    assert_eq!(read("0.0000004999"), Some(0));
    assert_eq!(read("0.00000005"), Some(0));
    assert_eq!(read("000123e-3"), Some(123_000));
    assert_eq!(read("1e7"), Some(FLOAT_CAP as i64));
    assert_eq!(read("1e99999999999999999999999999"), Some(FLOAT_CAP as i64));
    assert_eq!(read("1e-99999999999999999999999999"), Some(0));
    assert_eq!(read("0e99999999999999999999999999"), Some(0));
    assert_eq!(read("-inf"), Some(i64::MAX));
    assert_eq!(read("INFINITY"), Some(i64::MAX));
    assert_eq!(read("nAn"), Some(i64::MAX));
    for bad in ["", "+", "e1", "1e", "1e+", "1.2.3", " 1", "1 ", "0x1", "infin", "1_0"] {
        assert_eq!(read(bad), None, "{bad:?}");
    }
}
