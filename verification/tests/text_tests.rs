use yosegaki::text::{is_blank_str, is_white_space_char, split_once, strip_prefix, trim};

#[test]
fn white_space_matches_std_for_every_char() {
    for u in 0u32..0x110000 {
        if let Some(c) = char::from_u32(u) {
            assert_eq!(is_white_space_char(c), c.is_whitespace(), "U+{:04X}", u);
        }
    }
}

#[test]
fn trim_matches_std() {
    let samples = [
        "",
        "   ",
        "  体育祭2年5組  ",
        "\u{3000}テーマ\u{3000}",
        "\t\n a b \r\n",
        "abc",
        "\u{2028}x\u{85}",
        " a\u{a0}",
    ];
    for s in samples {
        assert_eq!(trim(s), s.trim(), "{:?}", s);
        assert_eq!(is_blank_str(s), s.trim().is_empty(), "{:?}", s);
    }
}

#[test]
fn trim_twice_changes_nothing() {
    let once = trim("  寄せ書き \t");
    assert_eq!(trim(&once), once);
}

#[test]
fn split_once_matches_std() {
    let samples = ["user:pass", "user:pa:ss", "nocolon", ":", "", "a:", ":b"];
    for s in samples {
        let expected = s.split_once(':').map(|(a, b)| (a.to_string(), b.to_string()));
        assert_eq!(split_once(s, ':'), expected, "{:?}", s);
    }
}

#[test]
fn strip_prefix_matches_std() {
    let samples = ["Basic abc", "Basic ", "basic abc", "Bas", "", "Bearer x"];
    for s in samples {
        assert_eq!(strip_prefix(s, "Basic "), s.strip_prefix("Basic ").map(|t| t.to_string()), "{:?}", s);
    }
}
