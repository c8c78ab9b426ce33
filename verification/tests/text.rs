use control_plane::text::{chars_of, join, parse_i64, trim, trim_end, trim_start};

fn cs(s: &str) -> Vec<char> {
    s.chars().collect()
}

#[test]
fn parse_i64_agrees_with_std() {
    let samples = [
        "0", "42", "-42", "+7", "-", "+", "", " 1", "1 ", "12a", "9223372036854775807",
        "9223372036854775808", "-9223372036854775808", "-9223372036854775809", "00012", "١٢",
        "+-1", "--1",
    ];
    for s in samples {
        assert_eq!(parse_i64(&cs(s)), s.parse::<i64>().ok(), "input {:?}", s);
    }
}

#[test]
fn trimming_matches_std() {
    let samples = ["", "  ", " a ", "\u{85}x\u{2028}", "a b", "\u{200b}x", "\t\n a \r\u{3000}"];
    for s in samples {
        assert_eq!(trim(&cs(s)), cs(s.trim()), "input {:?}", s);
        assert_eq!(trim_start(&cs(s)), cs(s.trim_start()), "input {:?}", s);
        assert_eq!(trim_end(&cs(s)), cs(s.trim_end()), "input {:?}", s);
        assert_eq!(trim(&trim(&cs(s))), trim(&cs(s)));
    }
}

#[test]
fn joining_and_chars() {
    assert_eq!(join(&vec![], ","), "");
    assert_eq!(join(&vec!["a".to_string()], ","), "a");
    assert_eq!(join(&vec!["a".to_string(), "".to_string(), "c".to_string()], ", "), "a, , c");
    assert_eq!(chars_of("héllo"), cs("héllo"));
}

