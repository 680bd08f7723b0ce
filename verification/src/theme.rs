//! Themes: one shared canvas each, picked from a list by their identifier.
use vstd::prelude::*;

use crate::contribution::png_suffix;
use crate::text::{is_blank, is_blank_str, trim, trimmed};

verus! {

broadcast use vstd::string::group_string_axioms;

/// A theme as the server lists it.
pub struct Theme {
    pub id: i64,
    pub title: String,
    pub created_at: String,
    /// Storage key of the latest version of the theme's canvas, once someone has added to it.
    pub canvas_key: Option<String>,
    pub contribution_count: i64,
}

/// Why a theme could not be created.
#[derive(PartialEq, Eq, Structural, Debug, Clone, Copy)]
pub enum ThemeError {
    /// The title holds nothing but white space.
    EmptyTitle,
}

impl ThemeError {
    /// The message shown to the user.
    pub fn message(&self) -> (m: String)
        ensures
            m@ == "テーマ名が空です"@,
    {
        "テーマ名が空です".to_string()
    }
}

/// The title under which a new theme is stored: the given one without
/// surrounding white space, refused when nothing else is left.
pub fn normalize_theme_title(title: &str) -> (r: Result<String, ThemeError>)
    ensures
        is_blank(title@) ==> r == Err::<String, ThemeError>(ThemeError::EmptyTitle),
        !is_blank(title@) ==> (r matches Ok(t) && t@ == trimmed(title@)),
{
    let t = trim(title);
    if t.as_str().unicode_len() == 0 {
        Err(ThemeError::EmptyTitle)
    } else {
        Ok(t)
    }
}

/// A stored title is its own normalization: normalizing it again keeps it as it is.
pub proof fn lemma_normalized_title_is_stable(title: Seq<char>)
    requires
        !is_blank(title),
    ensures
        !is_blank(trimmed(title)),
        trimmed(trimmed(title)) == trimmed(title),
{
    crate::text::lemma_trim_idempotent(title);
}

/// Whether a title typed into the form is worth sending (the forms skip blank ones).
pub fn is_title_given(title: &str) -> (r: bool)
    ensures
        r == !is_blank(title@),
{
    !is_blank_str(title)
}

/// Whether `i` is the position of the first theme with identifier `id`.
pub open spec fn is_first_with_id(themes: Seq<Theme>, id: i64, i: int) -> bool {
    &&& 0 <= i < themes.len()
    &&& themes[i].id == id
    &&& forall|j: int| 0 <= j < i ==> themes[j].id != id
}

/// The position of the first theme with identifier `id`.
pub open spec fn theme_position(themes: Seq<Theme>, id: i64) -> Option<int> {
    if exists|i: int| is_first_with_id(themes, id, i) {
        Some(choose|i: int| is_first_with_id(themes, id, i))
    } else {
        None
    }
}

proof fn lemma_first_with_id_unique(themes: Seq<Theme>, id: i64, i: int, k: int)
    requires
        is_first_with_id(themes, id, i),
        is_first_with_id(themes, id, k),
    ensures
        i == k,
{
}

/// The position of the first theme with identifier `id`.
pub fn find_theme(themes: &Vec<Theme>, id: i64) -> (r: Option<usize>)
    ensures
        r matches Some(i) ==> is_first_with_id(themes@, id, i as int) && theme_position(themes@, id) == Some(
            i as int,
        ),
        r is None ==> theme_position(themes@, id) is None,
{
    let mut i: usize = 0;
    while i < themes.len()
        invariant
            0 <= i <= themes.len(),
            forall|j: int| 0 <= j < i ==> themes@[j].id != id,
        decreases themes.len() - i,
    {
        if themes[i].id == id {
            proof {
                assert(is_first_with_id(themes@, id, i as int));
                let k = choose|k: int| is_first_with_id(themes@, id, k);
                lemma_first_with_id_unique(themes@, id, i as int, k);
            }
            return Some(i);
        }
        i += 1;
    }
    assert(!exists|k: int| is_first_with_id(themes@, id, k));
    None
}

/// The selected theme, where one is selected and listed.
pub open spec fn selected_theme(themes: Seq<Theme>, selected: Option<i64>) -> Option<Theme> {
    match selected {
        Some(id) => match theme_position(themes, id) {
            Some(i) => Some(themes[i]),
            None => None,
        },
        None => None,
    }
}

/// The storage key of the selected theme's canvas, where there is one.
pub fn selected_canvas_key(themes: &Vec<Theme>, selected: Option<i64>) -> (r: Option<String>)
    ensures
        match selected_theme(themes@, selected) {
            Some(t) => match t.canvas_key {
                Some(k) => r matches Some(s) && s@ == k@,
                None => r is None,
            },
            None => r is None,
        },
{
    let id = match selected {
        Some(id) => id,
        None => return None,
    };
    match find_theme(themes, id) {
        Some(i) => match &themes[i].canvas_key {
            Some(k) => Some(k.clone()),
            None => None,
        },
        None => None,
    }
}

/// The name a theme goes by when none is selected or found.
pub open spec fn fallback_title() -> Seq<char> {
    seq!['y', 'o', 's', 'e', 'g', 'a', 'k', 'i']
}

/// The title of the selected theme, or `"yosegaki"`.
pub fn selected_title(themes: &Vec<Theme>, selected: Option<i64>) -> (r: String)
    ensures
        match selected_theme(themes@, selected) {
            Some(t) => r@ == t.title@,
            None => r@ == fallback_title(),
        },
{
    let found = match selected {
        Some(id) => find_theme(themes, id),
        None => None,
    };
    match found {
        Some(i) => themes[i].title.clone(),
        None => {
            let mut s = String::new();
            crate::text::push_char(&mut s, 'y');
            crate::text::push_char(&mut s, 'o');
            crate::text::push_char(&mut s, 's');
            crate::text::push_char(&mut s, 'e');
            crate::text::push_char(&mut s, 'g');
            crate::text::push_char(&mut s, 'a');
            crate::text::push_char(&mut s, 'k');
            crate::text::push_char(&mut s, 'i');
            assert(s@ =~= fallback_title());
            s
        },
    }
}

/// The selection after the theme list is (re)loaded: the first listed theme
/// when nothing was selected yet, otherwise the selection as it was.
pub fn selection_after_refresh(current: Option<i64>, themes: &Vec<Theme>) -> (r: Option<i64>)
    ensures
        current is None && themes@.len() > 0 ==> r == Some(themes@[0].id),
        current is Some || themes@.len() == 0 ==> r == current,
{
    match current {
        Some(id) => Some(id),
        None => if themes.len() > 0 {
            Some(themes[0].id)
        } else {
            None
        },
    }
}

/// The name of a downloaded picture of a theme: `"{title}.png"`.
pub fn download_file_name(title: &str) -> (name: String)
    ensures
        name@ == title@ + png_suffix(),
{
    crate::contribution::image_key_for(title)
}

} // verus!
