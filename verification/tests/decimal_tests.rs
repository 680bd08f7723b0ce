use yosegaki::decimal::{format_theme_id, parse_theme_id};

#[test]
fn theme_ids_round_trip() {
    for id in [0i64, 1, 9, 10, 42, 500, -1, -10, 1234567890123, i64::MAX, i64::MIN] {
        let text = format_theme_id(id);
        assert_eq!(text, id.to_string());
        assert_eq!(parse_theme_id(&text), Some(id));
    }
}

#[test]
fn parsing_matches_std() {
    let samples = [
        "", "+", "-", "+0", "-0", "007", " 1", "1 ", "12a", "a12", "9223372036854775807",
        "9223372036854775808", "-9223372036854775808", "-9223372036854775809",
        "99999999999999999999999", "+-1", "--1", "١٢", "３",
    ];
    for s in samples {
        assert_eq!(parse_theme_id(s), s.parse::<i64>().ok(), "{:?}", s);
    }
}
