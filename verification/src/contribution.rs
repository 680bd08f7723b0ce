//! Rules for adding to a theme's shared canvas: the image a participant sends,
//! the per-theme limit, and the storage key of the saved picture.
use vstd::prelude::*;

use crate::codec::{base64_standard_decode, decode_base64_standard, is_uuid_v4_text, random_uuid_text};

verus! {

broadcast use vstd::string::group_string_axioms;

/// The largest accepted image, in bytes (3 MiB: the shared canvas grows with every addition).
pub const MAX_IMAGE_BYTES: usize = 3 * 1024 * 1024;

/// The most additions a single theme accepts.
pub const MAX_CONTRIBUTIONS_PER_THEME: i64 = 500;

/// Why an addition to a theme was refused.
#[derive(PartialEq, Eq, Debug)]
pub enum SubmitError {
    /// The image text is not valid Base64; the decoder's own explanation is kept.
    InvalidImage(String),
    /// The image holds no bytes.
    EmptyImage,
    /// The image is larger than `MAX_IMAGE_BYTES`.
    ImageTooLarge,
    /// The theme already holds `MAX_CONTRIBUTIONS_PER_THEME` additions.
    LimitReached,
}

/// The message shown to the participant for each refusal.
pub open spec fn submit_error_message(e: SubmitError) -> Seq<char> {
    match e {
        SubmitError::InvalidImage(detail) => "画像の読み込みに失敗しました: "@ + detail@,
        SubmitError::EmptyImage => "画像が空です"@,
        SubmitError::ImageTooLarge => "画像サイズが大きすぎます(3MBまで)"@,
        SubmitError::LimitReached => "このテーマは投稿数の上限に達しました。新しいテーマを作成してください"@,
    }
}

impl SubmitError {
    /// The message shown to the participant.
    pub fn message(&self) -> (m: String)
        ensures
            m@ == submit_error_message(*self),
    {
        match self {
            SubmitError::InvalidImage(detail) => {
                let prefix = "画像の読み込みに失敗しました: ".to_string();
                prefix.concat(detail.as_str())
            },
            SubmitError::EmptyImage => "画像が空です".to_string(),
            SubmitError::ImageTooLarge => "画像サイズが大きすぎます(3MBまで)".to_string(),
            SubmitError::LimitReached => "このテーマは投稿数の上限に達しました。新しいテーマを作成してください".to_string(),
        }
    }
}

/// Whether `r` is the verdict on decoded image bytes `bytes`: refused when
/// empty, refused when over the size limit, and otherwise accepted unchanged.
pub open spec fn image_verdict(bytes: Seq<u8>, r: Result<Vec<u8>, SubmitError>) -> bool {
    if bytes.len() == 0 {
        r == Err::<Vec<u8>, SubmitError>(SubmitError::EmptyImage)
    } else if bytes.len() > MAX_IMAGE_BYTES {
        r == Err::<Vec<u8>, SubmitError>(SubmitError::ImageTooLarge)
    } else {
        r matches Ok(v) && v@ == bytes
    }
}

/// Checks decoded image bytes against the size rules.
pub fn check_image(bytes: Vec<u8>) -> (r: Result<Vec<u8>, SubmitError>)
    ensures
        image_verdict(bytes@, r),
{
    if bytes.len() == 0 {
        Err(SubmitError::EmptyImage)
    } else if bytes.len() > MAX_IMAGE_BYTES {
        Err(SubmitError::ImageTooLarge)
    } else {
        Ok(bytes)
    }
}

/// Decodes the Base64 image that a participant sends and checks it.
pub fn decode_image(image_base64: &str) -> (r: Result<Vec<u8>, SubmitError>)
    ensures
        match base64_standard_decode(image_base64@) {
            Ok(bytes) => image_verdict(bytes, r),
            Err(text) => r matches Err(SubmitError::InvalidImage(detail)) && detail@ == text,
        },
{
    match decode_base64_standard(image_base64) {
        Ok(bytes) => check_image(bytes),
        Err(detail) => Err(SubmitError::InvalidImage(detail)),
    }
}

/// The number of additions a theme holds, from the rows that the count query
/// returned: the first row's count, or zero when the theme has no row.
pub fn current_contribution_count(counts: &Vec<i64>) -> (n: i64)
    ensures
        n == if counts@.len() > 0 {
            counts@[0]
        } else {
            0
        },
{
    if counts.len() > 0 {
        counts[0]
    } else {
        0
    }
}

/// An image that passes the checks is neither empty nor over the size limit.
pub proof fn lemma_accepted_image_within_limit(bytes: Seq<u8>, r: Result<Vec<u8>, SubmitError>)
    requires
        image_verdict(bytes, r),
        r is Ok,
    ensures
        0 < bytes.len() <= MAX_IMAGE_BYTES,
        r->Ok_0@ == bytes,
{
}

/// Whether a theme holding `current` additions accepts one more.
pub open spec fn accepts_contribution(current: int) -> bool {
    current < MAX_CONTRIBUTIONS_PER_THEME
}

/// A theme only accepts an addition while it stays within the limit afterwards.
pub proof fn lemma_limit_never_exceeded(current: int)
    requires
        accepts_contribution(current),
    ensures
        current + 1 <= MAX_CONTRIBUTIONS_PER_THEME,
{
}

/// Checks that a theme holding `current` additions accepts one more.
pub fn check_contribution_limit(current: i64) -> (r: Result<(), SubmitError>)
    ensures
        !accepts_contribution(current as int) ==> r == Err::<(), SubmitError>(SubmitError::LimitReached),
        accepts_contribution(current as int) ==> r is Ok,
{
    if current >= MAX_CONTRIBUTIONS_PER_THEME {
        Err(SubmitError::LimitReached)
    } else {
        Ok(())
    }
}

/// The HTTP status of the answer to a request for a stored picture: the
/// picture (200), no such picture (404), or a storage failure (500).
pub fn image_status(lookup: &Result<Option<Vec<u8>>, String>) -> (status: u16)
    ensures
        status == match lookup {
            Ok(Some(_)) => 200u16,
            Ok(None) => 404u16,
            Err(_) => 500u16,
        },
{
    match lookup {
        Ok(Some(_)) => 200,
        Ok(None) => 404,
        Err(_) => 500,
    }
}

/// The file-name extension of stored pictures.
pub open spec fn png_suffix() -> Seq<char> {
    seq!['.', 'p', 'n', 'g']
}

/// The storage key of a picture with the given identifier: `"{id}.png"`.
pub fn image_key_for(id: &str) -> (key: String)
    ensures
        key@ == id@ + png_suffix(),
{
    let mut key = crate::text::owned(id);
    crate::text::push_char(&mut key, '.');
    crate::text::push_char(&mut key, 'p');
    crate::text::push_char(&mut key, 'n');
    crate::text::push_char(&mut key, 'g');
    assert(key@ =~= id@ + png_suffix());
    key
}

/// A fresh storage key: a random UUID in hyphenated form followed by `.png`.
pub fn new_image_key() -> (key: String)
    ensures
        key@.len() == 40,
        is_uuid_v4_text(key@.take(36)),
        key@.skip(36) == png_suffix(),
{
    let id = random_uuid_text();
    let key = image_key_for(id.as_str());
    assert(key@.take(36) =~= id@);
    assert(key@.skip(36) =~= png_suffix());
    key
}

/// The URL path under which a stored picture is served: `"/img/{key}"`.
pub fn image_path(key: &str) -> (path: String)
    ensures
        path@ == seq!['/', 'i', 'm', 'g', '/'] + key@,
{
    let mut path = String::new();
    crate::text::push_char(&mut path, '/');
    crate::text::push_char(&mut path, 'i');
    crate::text::push_char(&mut path, 'm');
    crate::text::push_char(&mut path, 'g');
    crate::text::push_char(&mut path, '/');
    let path = path.concat(key);
    assert(path@ =~= seq!['/', 'i', 'm', 'g', '/'] + key@);
    path
}

} // verus!
