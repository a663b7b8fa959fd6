use rusty::token::build_custom_id;
use rusty::view::{
    build_nav_components_at, build_paginated_embed_with_footer_note,
    build_paginated_list_view_at, DEFAULT_EMBED_COLOR,
};

#[test]
fn a_single_page_has_no_controls() {
    let nav = build_nav_components_at("help", 1, 1, 42, 1000);
    assert!(nav.is_empty());
    let nav = build_nav_components_at("help", 1, 0, 42, 1000);
    assert!(nav.is_empty());
}

#[test]
fn controls_on_the_first_page() {
    let nav = build_nav_components_at("help", 1, 3, 42, 1000);
    assert_eq!(nav.len(), 3);
    // Previous stays on page one and is disabled at the boundary.
    assert_eq!(nav[0].custom_id, build_custom_id("help", "prev", 1, 3, 42, 1000));
    assert!(nav[0].disabled);
    assert_eq!(nav[0].label, "\u{25c0} Prev");
    // Jump targets the current page and is always live.
    assert_eq!(nav[1].custom_id, build_custom_id("help", "jump", 1, 3, 42, 1000));
    assert!(!nav[1].disabled);
    assert_eq!(nav[1].label, "*");
    // Next moves forward.
    assert_eq!(nav[2].custom_id, build_custom_id("help", "next", 2, 3, 42, 1000));
    assert!(!nav[2].disabled);
    assert_eq!(nav[2].label, "Next \u{25b6}");
}

#[test]
fn controls_on_the_last_page() {
    let nav = build_nav_components_at("help", 3, 3, 42, 1000);
    assert_eq!(nav.len(), 3);
    assert_eq!(nav[0].custom_id, build_custom_id("help", "prev", 2, 3, 42, 1000));
    assert!(!nav[0].disabled);
    // Next stays on the last page and is disabled there.
    assert_eq!(nav[2].custom_id, build_custom_id("help", "next", 3, 3, 42, 1000));
    assert!(nav[2].disabled);
}

#[test]
fn footer_text_forms() {
    let multi = build_paginated_embed_with_footer_note("T", "d".to_string(), 2, 3, None);
    assert_eq!(multi.footer_text, "Page 2/3");
    assert_eq!(multi.title, "T");
    assert_eq!(multi.description, "d");
    assert_eq!(multi.color, DEFAULT_EMBED_COLOR);

    let noted = build_paginated_embed_with_footer_note("T", "d".to_string(), 2, 3, Some("note"));
    assert_eq!(noted.footer_text, "Page 2/3 \u{2022} note");

    let single = build_paginated_embed_with_footer_note("T", "d".to_string(), 1, 1, None);
    assert_eq!(single.footer_text, "");

    let single_noted = build_paginated_embed_with_footer_note("T", "d".to_string(), 1, 1, Some("n"));
    assert_eq!(single_noted.footer_text, "n");

    // Page and total are floored at one before rendering.
    let floored = build_paginated_embed_with_footer_note("T", "d".to_string(), 0, 2, None);
    assert_eq!(floored.footer_text, "Page 1/2");
}

#[test]
fn list_view_composes_description_and_controls() {
    let items: Vec<String> = (1..=5).map(|i| format!("item {}", i)).collect();
    let (embed, nav) = build_paginated_list_view_at("pagetest", "Title", &items, 1, 2, 42, 1000);
    assert_eq!(embed.description, "- item 1\n- item 2");
    assert_eq!(embed.footer_text, "Page 1/3");
    assert_eq!(nav.len(), 3);
}
