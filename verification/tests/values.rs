use cobertura_rs::text::{is_float_str, parse_bool_str, parse_u64_str, parse_usize_str, str_eq};
use cobertura_rs::utf8_attr;

#[test]
fn unsigned_values_parse_like_the_standard_library() {
    let cases = ["0", "42", "+7", "18446744073709551615", "", "+", "-1", "1.5", "abc", "1e3",
        "18446744073709551616", "99999999999999999999999999"];
    for case in cases {
        assert_eq!(parse_u64_str(case), case.parse::<u64>().ok(), "u64 {:?}", case);
        assert_eq!(parse_usize_str(case), case.parse::<usize>().ok(), "usize {:?}", case);
    }
}

#[test]
fn booleans_parse_like_the_standard_library() {
    let cases = ["true", "false", "True", "FALSE", "1", "0", ""];
    for case in cases {
        assert_eq!(parse_bool_str(case), case.parse::<bool>().ok(), "bool {:?}", case);
    }
}

#[test]
fn float_text_is_recognised_like_the_standard_library() {
    let cases = ["0.5", "1", "+1", "-1", "1.", ".5", "1.5e-3", "2E8", "1.e5", "inf", "INF",
        "-infinity", "nan", "NaN", "+nan", "", ".", "+", "e5", "1e", "1.2.3", "0x1", "1_000",
        " 1", "1 ", "--1", "1e+", "infx", "na"];
    for case in cases {
        assert_eq!(is_float_str(case), case.parse::<f64>().is_ok(), "float {:?}", case);
    }
}

#[test]
fn string_equality_compares_characters() {
    assert!(str_eq("coverage", "coverage"));
    assert!(!str_eq("coverage", "coverag"));
    assert!(!str_eq("coverage", "Coverage"));
    assert!(str_eq("", ""));
    assert!(str_eq("héllo", "héllo"));
}

#[test]
fn attribute_bytes_display_lossily() {
    assert_eq!(utf8_attr(b"line-rate"), "line-rate");
    assert_eq!(utf8_attr("café".as_bytes()), "café");
    assert_eq!(utf8_attr(&[0x66, 0xff, 0x6f]), "f\u{fffd}o");
}
