use yosegaki::theme::{
    download_file_name, find_theme, is_title_given, normalize_theme_title, selected_canvas_key, selected_title,
    selection_after_refresh, Theme, ThemeError,
};

fn theme(id: i64, title: &str, key: Option<&str>) -> Theme {
    Theme {
        id,
        title: title.to_string(),
        created_at: "2026-01-01 00:00:00".to_string(),
        canvas_key: key.map(|k| k.to_string()),
        contribution_count: 0,
    }
}

#[test]
fn titles_are_trimmed_and_blank_ones_refused() {
    assert_eq!(normalize_theme_title("  体育祭2年5組 "), Ok("体育祭2年5組".to_string()));
    assert_eq!(normalize_theme_title(" \t\u{3000}"), Err(ThemeError::EmptyTitle));
    assert_eq!(normalize_theme_title(""), Err(ThemeError::EmptyTitle));
    assert_eq!(ThemeError::EmptyTitle.message(), "テーマ名が空です");
    assert!(is_title_given(" a "));
    assert!(!is_title_given("   "));
}

#[test]
fn normalized_titles_are_stable() {
    let once = normalize_theme_title("\n 文化祭 \n").unwrap();
    assert_eq!(normalize_theme_title(&once), Ok(once.clone()));
}

#[test]
fn first_listed_theme_is_selected_once() {
    let themes = vec![theme(7, "a", None), theme(3, "b", None)];
    assert_eq!(selection_after_refresh(None, &themes), Some(7));
    assert_eq!(selection_after_refresh(Some(3), &themes), Some(3));
    assert_eq!(selection_after_refresh(Some(99), &themes), Some(99));
    assert_eq!(selection_after_refresh(None, &vec![]), None);
}

#[test]
fn selected_theme_lookups() {
    let themes = vec![theme(1, "one", None), theme(2, "two", Some("k.png")), theme(2, "dup", Some("z.png"))];
    assert_eq!(find_theme(&themes, 2), Some(1));
    assert_eq!(find_theme(&themes, 5), None);
    assert_eq!(selected_canvas_key(&themes, Some(2)), Some("k.png".to_string()));
    assert_eq!(selected_canvas_key(&themes, Some(1)), None);
    assert_eq!(selected_canvas_key(&themes, None), None);
    assert_eq!(selected_title(&themes, Some(2)), "two");
    assert_eq!(selected_title(&themes, Some(9)), "yosegaki");
    assert_eq!(selected_title(&themes, None), "yosegaki");
    assert_eq!(download_file_name("two"), "two.png");
}
