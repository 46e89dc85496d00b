use dsa_judge::sandbox::Sandbox;
use dsa_judge::text::{decimal_string, is_blank};
use dsa_judge::{Judge, NormalizationOptions};

fn judge() -> Judge {
    Judge::new(Sandbox::new(tempfile::tempdir().unwrap()))
}

fn opts(crlf: bool, ws: bool) -> NormalizationOptions {
    NormalizationOptions { normalize_crlf: crlf, ignore_extra_whitespace: ws }
}

#[test]
fn lines_and_ends_are_trimmed() {
    let j = judge();
    let o = opts(false, false);
    assert_eq!(j.normalize_output_with("  10  \n", &o), "10");
    assert_eq!(j.normalize_output_with("\n\n a \n  b\t\n\n", &o), "a\nb");
    assert_eq!(j.normalize_output_with("a  b\n", &o), "a  b");
    assert_eq!(j.normalize_output_with("", &o), "");
    assert_eq!(j.normalize_output_with(" \n \t\n", &o), "");
}

#[test]
fn inner_whitespace_collapses_when_asked() {
    let j = judge();
    let o = opts(false, true);
    assert_eq!(j.normalize_output_with("  1   2\t3 \n4\u{a0}\u{a0}5", &o), "1 2 3\n4 5");
    assert_eq!(j.normalize_output_with("x\n\n  \ny", &o), "x\n\n\ny");
}

#[test]
fn crlf_becomes_lf() {
    let j = judge();
    assert_eq!(j.normalize_output_with("1\r\n2\r\n", &opts(true, false)), "1\n2");
    assert_eq!(j.normalize_output_with("1\r\n2\r\n", &opts(false, false)), "1\n2");
    assert_eq!(j.normalize_output_default("a\r\r\nb \r\n"), "a\nb");
}

#[test]
fn normalization_is_idempotent_on_samples() {
    let j = judge();
    let samples = ["", "  a  b \r\n\r\n c\t\n", "\n\nx\r\ny  \n\n", "\u{2003}p\u{3000}q\u{85}"];
    for crlf in [false, true] {
        for ws in [false, true] {
            let o = opts(crlf, ws);
            for s in samples {
                let once = j.normalize_output_with(s, &o);
                let twice = j.normalize_output_with(&once, &o);
                assert_eq!(once, twice);
            }
        }
    }
}

#[test]
fn outputs_match_after_normalization() {
    let j = judge();
    assert!(j.outputs_match("10\n", "10", &opts(false, false)));
    assert!(!j.outputs_match("1 2", "1  2", &opts(false, false)));
    assert!(j.outputs_match("1 2", "1  2", &opts(false, true)));
}

#[test]
fn default_options_are_off() {
    let o = NormalizationOptions::default();
    assert!(!o.normalize_crlf);
    assert!(!o.ignore_extra_whitespace);
}

#[test]
fn blank_lines() {
    assert!(is_blank(""));
    assert!(is_blank(" \t\r"));
    assert!(!is_blank(" x "));
}

#[test]
fn decimal_rendering() {
    assert_eq!(decimal_string(0), "0");
    assert_eq!(decimal_string(7), "7");
    assert_eq!(decimal_string(1234567890123), "1234567890123");
    assert_eq!(decimal_string(u128::MAX), u128::MAX.to_string());
}
