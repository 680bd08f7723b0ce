use yosegaki::download::{
    plan_download, row_content, text_baseline, visible_lines, Message, RowContent, DOWNLOAD_WIDTH,
    HEADER_HEIGHT, PADDING, ROW_HEIGHT,
};

fn text_message(id: i64, text: Option<&str>) -> Message {
    Message { id, kind: "text".to_string(), text_content: text.map(|t| t.to_string()), image_key: None }
}

fn drawing_message(id: i64, key: Option<&str>) -> Message {
    Message { id, kind: "drawing".to_string(), text_content: None, image_key: key.map(|k| k.to_string()) }
}

#[test]
fn empty_board_still_gets_one_row() {
    let plan = plan_download(&vec![]);
    assert_eq!(plan.width, 640);
    assert_eq!(plan.height, 80 + 260 + 40);
    assert!(plan.rows.is_empty());
}

#[test]
fn rows_go_oldest_first() {
    // The server lists newest first.
    let messages = vec![drawing_message(3, Some("c.png")), text_message(2, Some("やあ")), drawing_message(1, None)];
    let plan = plan_download(&messages);
    assert_eq!(plan.height, 80 + 3 * 260 + 40);
    assert_eq!(plan.rows.len(), 3);
    assert_eq!(plan.rows[0].top, 100);
    assert_eq!(plan.rows[1].top, 360);
    assert_eq!(plan.rows[2].top, 620);
    assert!(matches!(plan.rows[0].content, RowContent::Nothing));
    assert!(matches!(&plan.rows[1].content, RowContent::Text(t) if t == "やあ"));
    assert!(matches!(&plan.rows[2].content, RowContent::Image(k) if k == "c.png"));
}

#[test]
fn rows_fit_the_picture() {
    let messages: Vec<Message> = (0..5).map(|i| text_message(i, None)).collect();
    let plan = plan_download(&messages);
    for pair in plan.rows.windows(2) {
        assert_eq!(pair[0].top + ROW_HEIGHT, pair[1].top);
    }
    let last = plan.rows.last().unwrap();
    assert!(last.top + ROW_HEIGHT + PADDING <= plan.height);
    assert_eq!(plan.rows[0].top, HEADER_HEIGHT + PADDING);
    assert_eq!(DOWNLOAD_WIDTH, plan.width);
}

#[test]
fn text_without_content_shows_empty_text() {
    assert!(matches!(row_content(&text_message(1, None)), RowContent::Text(t) if t.is_empty()));
}

#[test]
fn only_eight_lines_are_drawn() {
    let lines: Vec<String> = (0..11).map(|i| i.to_string()).collect();
    let shown = visible_lines(lines.clone());
    assert_eq!(shown, lines[..8].to_vec());
    assert_eq!(visible_lines(vec!["a".to_string()]), vec!["a".to_string()]);
}

#[test]
fn text_baselines_are_twenty_four_apart() {
    assert_eq!(text_baseline(100, 0), 130);
    assert_eq!(text_baseline(100, 7), 130 + 7 * 24);
}
