use service::json;

fn chars(s: &str) -> Vec<char> {
    s.chars().collect()
}

fn accepts(s: &str) -> bool {
    json::is_json_text(&chars(s))
}

#[test]
fn accepts_simple_values() {
    assert!(accepts("null"));
    assert!(accepts("true"));
    assert!(accepts("false"));
    assert!(accepts("0"));
    assert!(accepts("-12"));
    assert!(accepts("12.5e-3"));
    assert!(accepts("\"hello\""));
    assert!(accepts("[]"));
    assert!(accepts("{}"));
    assert!(accepts("  {\"x\":1}  "));
    assert!(accepts("[1, 2, {\"a\": [true, null]}]"));
    assert!(accepts("\"esc \\\" \\\\ \\n \\u0041 \\uD83D\\uDE00\""));
}

#[test]
fn rejects_malformed_texts() {
    assert!(!accepts(""));
    assert!(!accepts("{"));
    assert!(!accepts("{\"a\":}"));
    assert!(!accepts("[1,]"));
    assert!(!accepts("01"));
    assert!(!accepts("+1"));
    assert!(!accepts("1."));
    assert!(!accepts("1e"));
    assert!(!accepts("\"unterminated"));
    assert!(!accepts("{\"a\" 1}"));
    assert!(!accepts("nul"));
    assert!(!accepts("truefalse"));
    assert!(!accepts("{} {}"));
    assert!(!accepts("\"lone \\uD800 surrogate\""));
    assert!(!accepts("\"bad escape \\x\""));
}

#[test]
fn agrees_with_reference_parser() {
    let cases = [
        "null",
        "[1,2,3]",
        "{\"a\":{\"b\":[false,\"c\"]}}",
        "-0.5E+10",
        "\"\\u00e9\\t\"",
        "",
        "{",
        "[1,]",
        "{\"a\":01}",
        "\"\\uDC00\"",
        "tru",
        "9999999999999999999999999999",
    ];
    for case in cases {
        let ours = accepts(case);
        let reference = serde_json::from_str::<serde_json::Value>(case).is_ok();
        assert_eq!(ours, reference, "disagreement on {:?}", case);
    }
}

#[test]
fn rejects_nesting_past_the_depth_bound() {
    let mut deep = String::new();
    for _ in 0..200 {
        deep.push('[');
    }
    for _ in 0..200 {
        deep.push(']');
    }
    assert!(!accepts(&deep));
    // The reference parser draws the same line at 128 levels.
    assert!(serde_json::from_str::<serde_json::Value>(&deep).is_err());

    let mut ok = String::new();
    for _ in 0..100 {
        ok.push('[');
    }
    for _ in 0..100 {
        ok.push(']');
    }
    assert!(accepts(&ok));
}

#[test]
fn text_span_trims_surrounding_whitespace() {
    let v = chars("  {\"x\": 1}  ");
    let (a, u) = json::text_span(&v).unwrap();
    let span: String = v[a..a + u].iter().collect();
    assert_eq!(span, "{\"x\": 1}");
}

#[test]
fn parse_u64_reads_decimal_numerals() {
    let v = chars("18446744073709551615");
    assert_eq!(json::parse_u64(&v, 0, v.len()), Some(u64::MAX));
    let v = chars("18446744073709551616");
    assert_eq!(json::parse_u64(&v, 0, v.len()), None);
    let v = chars("0250");
    assert_eq!(json::parse_u64(&v, 0, v.len()), Some(250));
    let v = chars("12a");
    assert_eq!(json::parse_u64(&v, 0, v.len()), None);
    let v = chars("");
    assert_eq!(json::parse_u64(&v, 0, v.len()), None);
}

#[test]
fn quoting_matches_the_reference_writer() {
    let cases = ["plain", "q\"uote", "back\\slash", "ctl\n\t\r\u{8}\u{c}\u{1}", "caf\u{e9}"];
    for case in cases {
        let mut out: Vec<char> = Vec::new();
        json::push_quoted(&mut out, &chars(case));
        let ours: String = out.iter().collect();
        let reference = serde_json::to_string(case).unwrap();
        assert_eq!(ours, reference, "disagreement on {:?}", case);
    }
}

#[test]
fn string_round_trips_through_chars() {
    let s = "grüße 😀";
    let v = json::str_chars(s);
    assert_eq!(json::chars_to_string(&v), s);
}
