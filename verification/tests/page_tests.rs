use rusty::page::{
    clamp_page, page_window, parse_one_based_page, resolve_modal_target_page, total_pages,
};
use rusty::view::paginated_bulleted_description;

#[test]
fn total_pages_cases() {
    assert_eq!(total_pages(0, 20), 0);
    assert_eq!(total_pages(14, 20), 1);
    assert_eq!(total_pages(14, 6), 3);
    assert_eq!(total_pages(250, 100), 3);
    assert_eq!(total_pages(100, 100), 1);
    assert_eq!(total_pages(101, 100), 2);
    // A page size of zero is treated as one item per page.
    assert_eq!(total_pages(3, 0), 3);
}

#[test]
fn clamp_page_law_cases() {
    assert_eq!(clamp_page(0, 5), 1);
    assert_eq!(clamp_page(1, 5), 1);
    assert_eq!(clamp_page(3, 5), 3);
    assert_eq!(clamp_page(7, 5), 5);
    assert_eq!(clamp_page(usize::MAX, 5), 5);
    // A total of zero still clamps into [1, 1].
    assert_eq!(clamp_page(9, 0), 1);
    assert_eq!(clamp_page(0, 0), 1);
    // Idempotence on concrete values.
    for page in [0usize, 1, 3, 7, 1000] {
        let once = clamp_page(page, 5);
        assert_eq!(clamp_page(once, 5), once);
        assert!(1 <= once && once <= 5);
    }
}

#[test]
fn windows_tile_the_items() {
    // 14 items, 6 per page: pages cover [0,6), [6,12), [12,14).
    assert_eq!(page_window(14, 6, 1), (0, 6));
    assert_eq!(page_window(14, 6, 2), (6, 12));
    assert_eq!(page_window(14, 6, 3), (12, 14));
    // Consecutive windows meet exactly, covering all 14 items.
    let total = total_pages(14, 6);
    let mut expected_start = 0;
    for page in 1..=total {
        let (start, end) = page_window(14, 6, page);
        assert_eq!(start, expected_start);
        assert!(start <= end && end <= 14);
        expected_start = end;
    }
    assert_eq!(expected_start, 14);
}

#[test]
fn window_beyond_items_is_empty() {
    assert_eq!(page_window(14, 6, 100), (14, 14));
    assert_eq!(page_window(0, 6, 1), (0, 0));
}

#[test]
fn modal_reconciliation_prefers_the_smaller_bound() {
    // A stale smaller hint restricts the jump.
    assert_eq!(resolve_modal_target_page(7, 8, 5), 5);
    // A stale larger hint cannot widen past the live total.
    assert_eq!(resolve_modal_target_page(7, 5, 8), 5);
    assert_eq!(resolve_modal_target_page(2, 8, 5), 2);
    assert_eq!(resolve_modal_target_page(0, 8, 5), 1);
    assert_eq!(resolve_modal_target_page(7, 8, 0), 1);
}

#[test]
fn one_based_page_parsing() {
    assert_eq!(parse_one_based_page(None), Some(1));
    assert_eq!(parse_one_based_page(Some("3")), Some(3));
    assert_eq!(parse_one_based_page(Some("+4")), Some(4));
    assert_eq!(parse_one_based_page(Some("0")), None);
    assert_eq!(parse_one_based_page(Some("abc")), None);
    assert_eq!(parse_one_based_page(Some("")), None);
    assert_eq!(parse_one_based_page(Some("-2")), None);
}

#[test]
fn bulleted_description_windows() {
    let items = vec!["a".to_string(), "b".to_string(), "c".to_string()];
    assert_eq!(paginated_bulleted_description(&items, 2, 1), "- a\n- b");
    assert_eq!(paginated_bulleted_description(&items, 2, 2), "- c");
    // An out-of-range page clamps to the last page.
    assert_eq!(paginated_bulleted_description(&items, 2, 9), "- c");
    let empty: Vec<String> = vec![];
    assert_eq!(paginated_bulleted_description(&empty, 2, 1), "- ");
}
