use meclipboard::commands::{plan_search, png_data_url, preview_file, restore_plan, ItemError, SearchRequest};
use meclipboard::models::{ClipItem, RestoreAction};

#[test]
fn data_url_is_base64_of_the_bytes() {
    assert_eq!(png_data_url(b""), "data:image/png;base64,");
    assert_eq!(png_data_url(b"M"), "data:image/png;base64,TQ==");
    assert_eq!(png_data_url(b"Ma"), "data:image/png;base64,TWE=");
    assert_eq!(png_data_url(b"Man"), "data:image/png;base64,TWFu");
    let bytes: Vec<u8> = (0..=255u32).step_by(7).map(|b| b as u8).collect();
    assert_eq!(
        png_data_url(&bytes),
        "data:image/png;base64,AAcOFRwjKjE4P0ZNVFtiaXB3foWMk5qhqK+2vcTL0tng5+71/A=="
    );
}

#[test]
fn preview_needs_an_entry_with_a_file() {
    assert_eq!(preview_file(None), Err(ItemError::NotFound));
    let text = ClipItem::new_text(1, "a".to_string(), 0);
    assert_eq!(preview_file(Some(text)), Err(ItemError::NotAnImage));
    let blank = ClipItem::new_image(2, String::new(), "h".to_string(), 0);
    assert_eq!(preview_file(Some(blank)), Err(ItemError::NotAnImage));
    let img = ClipItem::new_image(3, "h.png".to_string(), "h".to_string(), 0);
    assert_eq!(preview_file(Some(img)), Ok("h.png".to_string()));
}

#[test]
fn error_messages() {
    assert_eq!(ItemError::NotFound.message(), "条目不存在");
    assert_eq!(ItemError::NotAnImage.message(), "非图片条目");
}

#[test]
fn restore_plans() {
    assert!(matches!(restore_plan(None), Err(ItemError::NotFound)));
    let text = ClipItem::new_text(1, "abc".to_string(), 0);
    match restore_plan(Some(text)) {
        Ok(RestoreAction::WriteText(t)) => assert_eq!(t, "abc"),
        other => panic!("unexpected {:?}", other),
    }
    let mut no_text = ClipItem::new_text(1, String::new(), 0);
    no_text.text_content = None;
    match restore_plan(Some(no_text)) {
        Ok(RestoreAction::WriteText(t)) => assert_eq!(t, ""),
        other => panic!("unexpected {:?}", other),
    }
    let img = ClipItem::new_image(2, "x.png".to_string(), "x".to_string(), 0);
    match restore_plan(Some(img)) {
        Ok(RestoreAction::WriteImage(f)) => assert_eq!(f, "x.png"),
        other => panic!("unexpected {:?}", other),
    }
    let mut no_file = ClipItem::new_image(2, String::new(), "x".to_string(), 0);
    assert!(matches!(restore_plan(Some(no_file.clone())), Ok(RestoreAction::Nothing)));
    no_file.image_path = None;
    assert!(matches!(restore_plan(Some(no_file)), Ok(RestoreAction::Nothing)));
}

#[test]
fn blank_search_lists_recent_entries() {
    assert!(matches!(plan_search(String::new()), SearchRequest::Recent(200)));
    assert!(matches!(plan_search("   \t".to_string()), SearchRequest::Recent(200)));
    match plan_search(" ab ".to_string()) {
        SearchRequest::Matching(q) => assert_eq!(q, " ab "),
        other => panic!("unexpected {:?}", other),
    }
}
