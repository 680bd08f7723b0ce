use base64::Engine;
use yosegaki::contribution::{
    check_contribution_limit, check_image, current_contribution_count, decode_image, image_key_for,
    image_path, image_status, new_image_key, SubmitError, MAX_CONTRIBUTIONS_PER_THEME, MAX_IMAGE_BYTES,
};

fn encode(bytes: &[u8]) -> String {
    base64::engine::general_purpose::STANDARD.encode(bytes)
}

#[test]
fn valid_image_is_decoded() {
    assert_eq!(decode_image("aGVsbG8="), Ok(b"hello".to_vec()));
}

#[test]
fn invalid_base64_is_refused_with_the_decoder_message() {
    match decode_image("aGVsbG8") {
        Err(e @ SubmitError::InvalidImage(_)) => {
            assert!(e.message().starts_with("画像の読み込みに失敗しました: "));
        }
        other => panic!("unexpected {:?}", other),
    }
    let expected = base64::engine::general_purpose::STANDARD.decode("@@@@").unwrap_err().to_string();
    assert_eq!(decode_image("@@@@"), Err(SubmitError::InvalidImage(expected.clone())));
    assert_eq!(
        SubmitError::InvalidImage(expected.clone()).message(),
        format!("画像の読み込みに失敗しました: {expected}")
    );
}

#[test]
fn empty_image_is_refused() {
    assert_eq!(decode_image(""), Err(SubmitError::EmptyImage));
    assert_eq!(check_image(Vec::new()), Err(SubmitError::EmptyImage));
}

#[test]
fn size_limit_is_inclusive() {
    let at_limit = vec![7u8; MAX_IMAGE_BYTES];
    assert_eq!(decode_image(&encode(&at_limit)).map(|v| v.len()), Ok(MAX_IMAGE_BYTES));
    let over = vec![7u8; MAX_IMAGE_BYTES + 1];
    assert_eq!(decode_image(&encode(&over)), Err(SubmitError::ImageTooLarge));
    assert_eq!(MAX_IMAGE_BYTES, 3 * 1024 * 1024);
}

#[test]
fn contribution_count_comes_from_the_first_row() {
    assert_eq!(current_contribution_count(&vec![]), 0);
    assert_eq!(current_contribution_count(&vec![12, 40]), 12);
}

#[test]
fn contribution_limit_is_five_hundred() {
    assert_eq!(MAX_CONTRIBUTIONS_PER_THEME, 500);
    assert_eq!(check_contribution_limit(0), Ok(()));
    assert_eq!(check_contribution_limit(499), Ok(()));
    assert_eq!(check_contribution_limit(500), Err(SubmitError::LimitReached));
    assert_eq!(check_contribution_limit(501), Err(SubmitError::LimitReached));
}

#[test]
fn refusal_messages() {
    assert_eq!(SubmitError::EmptyImage.message(), "画像が空です");
    assert_eq!(SubmitError::ImageTooLarge.message(), "画像サイズが大きすぎます(3MBまで)");
    assert_eq!(
        SubmitError::LimitReached.message(),
        "このテーマは投稿数の上限に達しました。新しいテーマを作成してください"
    );
    assert_eq!(
        SubmitError::InvalidImage("Invalid padding".to_string()).message(),
        "画像の読み込みに失敗しました: Invalid padding"
    );
}

#[test]
fn image_keys_are_uuid_png_names() {
    let a = new_image_key();
    let b = new_image_key();
    assert_ne!(a, b);
    assert_eq!(a.len(), 40);
    assert!(a.ends_with(".png"));
    let id = uuid::Uuid::parse_str(&a[..36]).unwrap();
    assert_eq!(id.get_version_num(), 4);
    assert_eq!(&a[14..15], "4");
    assert!(matches!(&a[19..20], "8" | "9" | "a" | "b"));
    assert_eq!(&a[..36], id.to_string());
    assert_eq!(image_key_for("abc"), "abc.png");
}

#[test]
fn image_paths_and_statuses() {
    assert_eq!(image_path("abc.png"), "/img/abc.png");
    assert_eq!(image_status(&Ok(Some(vec![1, 2]))), 200);
    assert_eq!(image_status(&Ok(None)), 404);
    assert_eq!(image_status(&Err("boom".to_string())), 500);
}
