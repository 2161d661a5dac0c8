use solar_sim::body::ModelPath;
use solar_sim::text::{decimal_string, ends_with, replace_str};

#[test]
fn decimal_of_zero_positive_and_negative() {
    assert_eq!(decimal_string(0), "0");
    assert_eq!(decimal_string(7), "7");
    assert_eq!(decimal_string(1234), "1234");
    assert_eq!(decimal_string(-42), "-42");
    assert_eq!(decimal_string(i32::MIN as i64), "-2147483648");
    assert_eq!(decimal_string(i64::MIN), "-9223372036854775808");
    assert_eq!(decimal_string(i64::MAX), "9223372036854775807");
}

#[test]
fn replace_matches_std_replace() {
    let cases = [
        ("models/earth.glb#Scene0", "models/", ""),
        ("aaaa", "aa", "b"),
        ("abcabc", "bc", "XY"),
        ("no match here", "zz", "y"),
        ("", "a", "b"),
        ("ümlaut models/ü", "models/", "m/"),
        ("abc", "", "-"),
        ("", "", "-"),
        ("üx", "", ""),
        ("ab", "", "<>"),
    ];
    for (s, pat, rep) in cases {
        assert_eq!(replace_str(s, pat, rep), s.replace(pat, rep));
    }
}

#[test]
fn ends_with_matches_std() {
    assert!(ends_with("data/de440.bsp", ".bsp"));
    assert!(!ends_with("data/de440.bsp", ".pca"));
    assert!(!ends_with("bsp", ".bsp"));
    assert!(ends_with(".bsp", ".bsp"));
    assert!(ends_with("x", ""));
}

#[test]
fn model_path_from_cleaned() {
    let p = ModelPath::from_cleaned("earth.glb");
    assert_eq!(p.0, "models/earth.glb#Scene0");
}

#[test]
fn model_path_cleaned() {
    let p = ModelPath("models/saturn.glb#Scene0".to_string());
    assert_eq!(p.cleaned(), "saturn.glb");
    let q = ModelPath("models/a/models/b#Scene0#Scene0".to_string());
    assert_eq!(q.cleaned(), "a/b");
}

#[test]
fn model_path_round_trip() {
    for name in ["earth.glb", "sub/dir/moon.glb", "", "#Scene", "models", "x#Scene1"] {
        assert_eq!(ModelPath::from_cleaned(name).cleaned(), name);
    }
}

#[test]
fn model_path_round_trip_fails_when_name_holds_a_pattern() {
    assert_eq!(ModelPath::from_cleaned("models/x").cleaned(), "x");
    assert_eq!(ModelPath::from_cleaned("a#Scene0b").cleaned(), "ab");
}
