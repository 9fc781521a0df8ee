use meclipboard::models::{ClipItem, ContentType};

#[test]
fn content_type_tags_round_trip() {
    assert_eq!(ContentType::Text.as_str(), "text");
    assert_eq!(ContentType::Image.as_str(), "image");
    assert_eq!(ContentType::from_str("text"), Some(ContentType::Text));
    assert_eq!(ContentType::from_str("image"), Some(ContentType::Image));
    assert_eq!(ContentType::from_str("Text"), None);
    assert_eq!(ContentType::from_str(""), None);
}

#[test]
fn new_text_is_unpinned_text() {
    let item = ClipItem::new_text(7, "hello".to_string(), 1700000000);
    assert_eq!(item.id, 7);
    assert_eq!(item.content_type, ContentType::Text);
    assert_eq!(item.text_content.as_deref(), Some("hello"));
    assert_eq!(item.image_path, None);
    assert_eq!(item.image_hash, None);
    assert_eq!(item.created_at, 1700000000);
    assert!(!item.is_pinned);
}

#[test]
fn new_image_keeps_path_and_hash() {
    let item = ClipItem::new_image(3, "abc.png".to_string(), "abc".to_string(), 42);
    assert_eq!(item.id, 3);
    assert_eq!(item.content_type, ContentType::Image);
    assert_eq!(item.text_content, None);
    assert_eq!(item.image_path.as_deref(), Some("abc.png"));
    assert_eq!(item.image_hash.as_deref(), Some("abc"));
    assert_eq!(item.created_at, 42);
    assert!(!item.is_pinned);
}

#[test]
fn row_with_unknown_tag_reads_as_text() {
    let item = ClipItem::from_row(9, "video", Some("x".to_string()), None, 5, 0);
    assert_eq!(item.content_type, ContentType::Text);
    assert_eq!(item.id, 9);
    assert_eq!(item.text_content.as_deref(), Some("x"));
    assert_eq!(item.image_hash, None);
    assert!(!item.is_pinned);
}

#[test]
fn row_with_image_tag_and_flag() {
    let item = ClipItem::from_row(1, "image", None, Some("f.png".to_string()), 10, 1);
    assert_eq!(item.content_type, ContentType::Image);
    assert_eq!(item.image_path.as_deref(), Some("f.png"));
    assert_eq!(item.image_hash, None);
    assert!(item.is_pinned);
    let other = ClipItem::from_row(1, "text", None, None, 10, -3);
    assert!(other.is_pinned);
}

#[test]
fn reinsertion_keeps_content_and_clears_id() {
    let mut item = ClipItem::new_image(55, "p.png".to_string(), "h".to_string(), 99);
    item.is_pinned = true;
    let again = item.clone().for_reinsertion();
    assert_eq!(again.id, 0);
    assert_eq!(again.content_type, ContentType::Image);
    assert_eq!(again.image_path.as_deref(), Some("p.png"));
    assert_eq!(again.image_hash.as_deref(), Some("h"));
    assert_eq!(again.created_at, 99);
    assert!(again.is_pinned);
}

#[test]
fn pin_flags() {
    assert_eq!(meclipboard::models::pin_flag(true), 1);
    assert_eq!(meclipboard::models::pin_flag(false), 0);
    let item = ClipItem::new_text(1, "a".to_string(), 0);
    assert_eq!(item.pin_flag(), 0);
}

#[test]
fn storage_stats_sum_text_and_images() {
    let s = meclipboard::models::StorageStats::summarize(12, 300, 4000);
    assert_eq!(s.total_bytes, 4300);
    assert_eq!(s.item_count, 12);
    assert_eq!(s.image_count, 0);
}

#[test]
fn stored_row_reads_back_without_hash() {
    let mut item = ClipItem::new_image(12, "f.png".to_string(), "f".to_string(), 1234);
    item.is_pinned = true;
    let back = ClipItem::from_row(
        item.id,
        item.content_type.as_str(),
        item.text_content.clone(),
        item.image_path.clone(),
        item.created_at,
        item.pin_flag(),
    );
    assert_eq!(back.id, 12);
    assert_eq!(back.content_type, ContentType::Image);
    assert_eq!(back.image_path.as_deref(), Some("f.png"));
    assert_eq!(back.image_hash, None);
    assert_eq!(back.created_at, 1234);
    assert!(back.is_pinned);
}
