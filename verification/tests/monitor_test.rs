use meclipboard::fingerprint::image_hash;
use meclipboard::models::ContentType;
use meclipboard::monitor::MonitorState;

#[test]
fn text_recorded_once_modulo_surrounding_whitespace() {
    let mut m = MonitorState::new();
    let item = m.observe_text("  hello \n".to_string(), 100).expect("new text");
    assert_eq!(item.text_content.as_deref(), Some("  hello \n"));
    assert_eq!(item.content_type, ContentType::Text);
    assert_eq!(item.id, 0);
    assert_eq!(item.created_at, 100);
    assert!(!item.is_pinned);
    assert!(m.observe_text("hello".to_string(), 101).is_none());
    assert!(m.observe_text("\thello".to_string(), 102).is_none());
    assert!(m.observe_text("hello!".to_string(), 103).is_some());
}

#[test]
fn blank_text_ignored() {
    let mut m = MonitorState::new();
    assert!(m.observe_text("".to_string(), 1).is_none());
    assert!(m.observe_text(" \t\r\n\u{3000}".to_string(), 1).is_none());
    assert!(m.observe_text("x".to_string(), 1).is_some());
}

#[test]
fn image_recorded_once() {
    let mut m = MonitorState::new();
    let px = [1u8, 2, 3, 4];
    let h = m.observe_image(&px, 1, 1).expect("new image");
    assert_eq!(h, image_hash(&px, 1, 1));
    assert!(m.observe_image(&px, 1, 1).is_none());
    assert!(m.observe_image(&[5, 6, 7, 8], 1, 1).is_some());
}

#[test]
fn empty_image_ignored() {
    let mut m = MonitorState::new();
    assert!(m.observe_image(&[], 0, 5).is_none());
    assert!(m.observe_image(&[], 5, 0).is_none());
}

#[test]
fn alternating_copies_are_each_recorded() {
    let mut m = MonitorState::new();
    let px = [9u8; 4];
    assert!(m.observe_text("a".to_string(), 1).is_some());
    assert!(m.observe_image(&px, 1, 1).is_some());
    assert!(m.observe_text("a".to_string(), 2).is_some());
    assert!(m.observe_image(&px, 1, 1).is_some());
}

#[test]
fn forgetting_after_a_failed_poll() {
    let mut m = MonitorState::new();
    assert!(m.observe_text("a".to_string(), 1).is_some());
    m.forget();
    assert!(m.observe_text("a".to_string(), 2).is_some());
}
