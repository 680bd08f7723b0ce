//! Layout of the downloadable picture that gathers a theme's messages, one row per message.
use vstd::prelude::*;

verus! {

/// Width of the downloaded picture.
pub const DOWNLOAD_WIDTH: u32 = 640;
/// Height of one message row.
pub const ROW_HEIGHT: u32 = 260;
/// Height of the title band at the top.
pub const HEADER_HEIGHT: u32 = 80;
/// Margin around the rows.
pub const PADDING: u32 = 20;
/// Width of the frame drawn around a message.
pub const CELL_WIDTH: u32 = DOWNLOAD_WIDTH - PADDING * 2;
/// Height of the frame drawn around a message.
pub const CELL_HEIGHT: u32 = ROW_HEIGHT - 20;
/// Distance of a message's content from its frame.
pub const CONTENT_INSET: u32 = 10;
/// Widest line of text inside a frame.
pub const TEXT_MAX_WIDTH: u32 = CELL_WIDTH - CONTENT_INSET * 2;
/// Largest picture inside a frame.
pub const IMAGE_MAX_WIDTH: u32 = CELL_WIDTH - CONTENT_INSET * 2;
pub const IMAGE_MAX_HEIGHT: u32 = CELL_HEIGHT - CONTENT_INSET * 2;
/// Lines of a text message that are drawn; the rest are left out.
pub const MAX_TEXT_LINES: usize = 8;
/// Baseline of a row's first text line, below the row's top.
pub const FIRST_BASELINE: u32 = 30;
/// Distance between text baselines.
pub const LINE_HEIGHT: u32 = 24;
/// The most rows whose picture height fits in a `u32`.
pub const MAX_DOWNLOAD_ROWS: usize = 16519104;

/// A message of a theme's board, as the server lists it (newest first).
pub struct Message {
    pub id: i64,
    /// `"text"` for a written message; anything else is a drawing.
    pub kind: String,
    pub text_content: Option<String>,
    pub image_key: Option<String>,
}

/// What a row of the picture shows.
pub enum RowContent {
    /// Written text (wrapped to the frame by the caller).
    Text(String),
    /// The stored picture with this key.
    Image(String),
    /// A drawing without a stored picture: only the frame.
    Nothing,
}

/// One row of the picture.
pub struct Row {
    /// Top edge of the row's frame.
    pub top: u32,
    pub content: RowContent,
}

/// The whole picture: its size and its rows, oldest message first.
pub struct DownloadPlan {
    pub width: u32,
    pub height: u32,
    pub rows: Vec<Row>,
}

pub open spec fn text_kind() -> Seq<char> {
    seq!['t', 'e', 'x', 't']
}

/// Height of the picture for `n` messages (an empty board still gets one row).
pub open spec fn picture_height(n: int) -> int {
    HEADER_HEIGHT + (if n > 1 { n } else { 1 }) * ROW_HEIGHT + PADDING * 2
}

/// Top edge of row `i`.
pub open spec fn row_top(i: int) -> int {
    HEADER_HEIGHT + PADDING + i * ROW_HEIGHT
}

/// The rows of a picture follow one another without overlapping, and all of
/// them, with the bottom margin, fit in the picture.
pub proof fn lemma_rows_fit_picture(n: int, i: int)
    requires
        0 <= i < n,
    ensures
        row_top(i) + ROW_HEIGHT == row_top(i + 1),
        row_top(i) + ROW_HEIGHT + PADDING <= picture_height(n),
{
    assert(i * ROW_HEIGHT + ROW_HEIGHT == (i + 1) * ROW_HEIGHT) by (nonlinear_arith);
    assert((i + 1) * ROW_HEIGHT <= n * ROW_HEIGHT) by (nonlinear_arith)
        requires
            i + 1 <= n,
    ;
}

/// Whether `c` is what the row of message `m` shows: its text (empty when it
/// has none) for a written message, otherwise its stored picture when it has one.
pub open spec fn shows(c: RowContent, m: Message) -> bool {
    if m.kind@ == text_kind() {
        c matches RowContent::Text(t) && t@ == match m.text_content {
            Some(s) => s@,
            None => Seq::<char>::empty(),
        }
    } else {
        match m.image_key {
            Some(k) => c matches RowContent::Image(x) && x@ == k@,
            None => c is Nothing,
        }
    }
}

/// The row of a written message carries its whole text, however long (or no
/// text when the message has none); the row of a drawing carries its picture key.
pub proof fn lemma_rows_keep_whole_messages(c: RowContent, m: Message)
    requires
        shows(c, m),
    ensures
        m.kind@ == text_kind() ==> (c matches RowContent::Text(t) && t@.len() == match m.text_content {
            Some(s) => s@.len(),
            None => 0,
        } && (m.text_content matches Some(s) ==> t@ == s@)),
        m.kind@ != text_kind() && m.image_key is Some ==> (c matches RowContent::Image(k) && k@
            == m.image_key->0@),
{
}

/// What the row of one message shows.
pub fn row_content(m: &Message) -> (c: RowContent)
    ensures
        shows(c, *m),
{
    let mut text = String::new();
    crate::text::push_char(&mut text, 't');
    crate::text::push_char(&mut text, 'e');
    crate::text::push_char(&mut text, 'x');
    crate::text::push_char(&mut text, 't');
    assert(text@ =~= text_kind());
    if m.kind == text {
        match &m.text_content {
            Some(s) => RowContent::Text(s.clone()),
            None => RowContent::Text(String::new()),
        }
    } else {
        match &m.image_key {
            Some(k) => RowContent::Image(k.clone()),
            None => RowContent::Nothing,
        }
    }
}

/// Lays out the picture of a board whose messages are listed newest first:
/// rows go oldest first, each `ROW_HEIGHT` below the previous one.
pub fn plan_download(messages: &Vec<Message>) -> (plan: DownloadPlan)
    requires
        messages@.len() <= MAX_DOWNLOAD_ROWS,
    ensures
        plan.width == DOWNLOAD_WIDTH,
        plan.height == picture_height(messages@.len() as int),
        plan.rows@.len() == messages@.len(),
        forall|i: int|
            0 <= i < plan.rows@.len() ==> plan.rows@[i].top == row_top(i) && shows(
                #[trigger] plan.rows@[i].content,
                messages@[messages@.len() - 1 - i],
            ),
{
    let n = messages.len();
    let shown: u32 = if n > 1 {
        n as u32
    } else {
        1
    };
    let height = HEADER_HEIGHT + shown * ROW_HEIGHT + PADDING * 2;
    let mut rows: Vec<Row> = Vec::new();
    let mut i: usize = 0;
    while i < n
        invariant
            0 <= i <= n == messages@.len() <= MAX_DOWNLOAD_ROWS,
            rows@.len() == i,
            forall|j: int|
                0 <= j < i ==> rows@[j].top == row_top(j) && shows(
                    #[trigger] rows@[j].content,
                    messages@[n - 1 - j],
                ),
        decreases n - i,
    {
        let top = HEADER_HEIGHT + PADDING + (i as u32) * ROW_HEIGHT;
        let content = row_content(&messages[n - 1 - i]);
        rows.push(Row { top, content });
        i += 1;
    }
    DownloadPlan { width: DOWNLOAD_WIDTH, height, rows }
}

/// Baseline of line `line` of the text in the row whose top is `top`.
pub fn text_baseline(top: u32, line: usize) -> (y: u32)
    requires
        line < MAX_TEXT_LINES,
        top as int + FIRST_BASELINE + LINE_HEIGHT * (MAX_TEXT_LINES - 1) <= u32::MAX,
    ensures
        y == top + FIRST_BASELINE + line * LINE_HEIGHT,
{
    top + FIRST_BASELINE + (line as u32) * LINE_HEIGHT
}

/// The lines of a text message that are drawn: the first `MAX_TEXT_LINES`.
pub fn visible_lines(lines: Vec<String>) -> (shown: Vec<String>)
    ensures
        shown.deep_view() == lines.deep_view().take(
            if lines@.len() < MAX_TEXT_LINES {
                lines@.len() as int
            } else {
                MAX_TEXT_LINES as int
            },
        ),
{
    let mut shown: Vec<String> = Vec::new();
    let mut i: usize = 0;
    while i < lines.len() && i < MAX_TEXT_LINES
        invariant
            0 <= i <= lines@.len(),
            i <= MAX_TEXT_LINES,
            shown@.len() == i,
            forall|j: int| 0 <= j < i ==> (#[trigger] shown@[j])@ == lines@[j]@,
        decreases MAX_TEXT_LINES - i,
    {
        shown.push(lines[i].clone());
        i += 1;
    }
    assert(shown.deep_view() =~= lines.deep_view().take(i as int));
    shown
}

} // verus!
