use meclipboard::store::{
    delete_ids_statement, history_limit, like_pattern, placeholder_list, retention_cutoff,
    toggle_pin_flag, unreferenced_files, OldestBatch, PinToggle,
};

#[test]
fn history_limit_defaults_to_500() {
    assert_eq!(history_limit(None), 500);
    assert_eq!(history_limit(Some(20)), 20);
}

#[test]
fn like_pattern_wraps_query() {
    assert_eq!(like_pattern("ab"), "%ab%");
    assert_eq!(like_pattern(""), "%%");
    assert_eq!(like_pattern("a_c"), "%a\\_c%");
    assert_eq!(like_pattern("50%"), "%50\\%%");
    assert_eq!(like_pattern("C:\\x"), "%C:\\\\x%");
    assert_eq!(like_pattern("条目"), "%条目%");
}

#[test]
fn toggling_flips_and_twice_restores() {
    assert_eq!(toggle_pin_flag(0), PinToggle { stored: 1, pinned: true });
    assert_eq!(toggle_pin_flag(1), PinToggle { stored: 0, pinned: false });
    assert_eq!(toggle_pin_flag(7), PinToggle { stored: 0, pinned: false });
    let once = toggle_pin_flag(0);
    let twice = toggle_pin_flag(once.stored);
    assert_eq!(twice, PinToggle { stored: 0, pinned: false });
}

#[test]
fn cutoff_is_days_before_now() {
    assert_eq!(retention_cutoff(1_700_000_000, 30), 1_700_000_000 - 30 * 86400);
    assert_eq!(retention_cutoff(5, 0), 5);
}

#[test]
fn placeholders_are_numbered_from_one() {
    assert_eq!(placeholder_list(0), "");
    assert_eq!(placeholder_list(1), "?1");
    assert_eq!(placeholder_list(3), "?1,?2,?3");
    assert_eq!(placeholder_list(11), "?1,?2,?3,?4,?5,?6,?7,?8,?9,?10,?11");
    assert_eq!(delete_ids_statement(2), "DELETE FROM clips WHERE id IN (?1,?2)");
    assert_eq!(delete_ids_statement(10), format!("DELETE FROM clips WHERE id IN ({})", (1..=10).map(|i| format!("?{}", i)).collect::<Vec<_>>().join(",")));
}

#[test]
fn oldest_batch_splits_rows() {
    let rows = vec![
        (4i64, None),
        (9, Some("a.png".to_string())),
        (2, None),
        (11, Some("b.png".to_string())),
    ];
    let b = OldestBatch::from_rows(&rows);
    assert_eq!(b.ids, vec![4, 9, 2, 11]);
    assert_eq!(b.image_paths, vec!["a.png".to_string(), "b.png".to_string()]);
    let empty = OldestBatch::from_rows(&vec![]);
    assert!(empty.ids.is_empty() && empty.image_paths.is_empty());
}

#[test]
fn only_unreferenced_files_are_deleted() {
    let candidates = vec![
        "images/a.png".to_string(),
        "images/b.png".to_string(),
        "images/a.png".to_string(),
        "images/c.png".to_string(),
    ];
    let referenced = vec!["images/b.png".to_string()];
    assert_eq!(
        unreferenced_files(&candidates, &referenced),
        vec!["images/a.png".to_string(), "images/c.png".to_string()]
    );
    assert!(unreferenced_files(&candidates, &candidates).is_empty());
    assert!(unreferenced_files(&vec![], &referenced).is_empty());
}
