use yosegaki::wrap::LineWrapper;

/// Width of a line in this test: its number of characters.
fn wrap_by_count(text: &str, max: usize) -> Vec<String> {
    let mut w = LineWrapper::new();
    for ch in text.chars() {
        let too_wide = if LineWrapper::is_line_break(ch) {
            false
        } else {
            w.trial(ch).chars().count() > max
        };
        w.feed(ch, too_wide);
    }
    w.finish()
}

/// The breaking rule written directly, with the same width measure.
fn reference_wrap(text: &str, max: usize) -> Vec<String> {
    let mut lines = Vec::new();
    let mut current = String::new();
    for ch in text.chars() {
        if ch == '\n' {
            lines.push(current.clone());
            current.clear();
            continue;
        }
        let mut trial = current.clone();
        trial.push(ch);
        if trial.chars().count() > max && !current.is_empty() {
            lines.push(current.clone());
            current.clear();
        }
        current.push(ch);
    }
    if !current.is_empty() {
        lines.push(current);
    }
    lines
}

#[test]
fn wrapping_breaks_long_lines() {
    assert_eq!(wrap_by_count("abcdefg", 3), vec!["abc", "def", "g"]);
}

#[test]
fn line_breaks_end_lines_even_when_empty() {
    assert_eq!(wrap_by_count("ab\n\ncd\n", 10), vec!["ab", "", "cd"]);
}

#[test]
fn a_single_too_wide_character_stays_on_its_own_line() {
    assert_eq!(wrap_by_count("xyz", 0), vec!["x", "y", "z"]);
}

#[test]
fn wrapping_agrees_with_the_rule() {
    let texts = ["", "\n", "寄せ書きをみんなで書こう\nありがとう", "a\nbb\nccc dddd", "  spaced  out  "];
    for t in texts {
        for max in 0..6 {
            assert_eq!(wrap_by_count(t, max), reference_wrap(t, max), "{:?} {}", t, max);
        }
    }
}

#[test]
fn wrapping_keeps_every_character() {
    let text = "一行目\n二行目はとても長いので折り返されます\n三";
    let lines = wrap_by_count(text, 4);
    assert_eq!(lines.concat(), text.replace('\n', ""));
    assert!(lines.iter().all(|l| !l.contains('\n')));
}
