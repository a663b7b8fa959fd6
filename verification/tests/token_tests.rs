use rusty::token::{
    build_custom_id, build_modal_custom_id, is_expired_at, parse_custom_id, parse_modal_custom_id,
    validate_custom_id_at, PaginationValidationError,
};

#[test]
fn encode_pagination_exact_wire_form() {
    let id = build_custom_id("permissions", "next", 2, 5, 42, 1000);
    assert_eq!(id, "pg:permissions:next:2:5:42:1000");
}

#[test]
fn pagination_round_trip() {
    let id = build_custom_id("help|utility", "prev", 3, 7, 987654321, 1234567890);
    let token = parse_custom_id(&id).expect("round trip should parse");
    assert_eq!(token.command, "help|utility");
    assert_eq!(token.action, "prev");
    assert_eq!(token.page, 3);
    assert_eq!(token.total_pages, 7);
    assert_eq!(token.user_id, 987654321);
    assert_eq!(token.expires_at, 1234567890);
}

#[test]
fn parse_rejects_wrong_prefix() {
    assert!(parse_custom_id("pgx:cmd:next:1:2:3:4").is_none());
    assert!(parse_custom_id("pgm:cmd:1:2:3").is_none());
    assert!(parse_custom_id("").is_none());
}

#[test]
fn parse_rejects_wrong_field_count() {
    assert!(parse_custom_id("pg:cmd:next:1:2:3").is_none());
    assert!(parse_custom_id("pg:cmd:next:1:2:3:4:5").is_none());
}

#[test]
fn parse_rejects_non_numeric_fields() {
    assert!(parse_custom_id("pg:cmd:next:x:2:3:4").is_none());
    assert!(parse_custom_id("pg:cmd:next:1:y:3:4").is_none());
    assert!(parse_custom_id("pg:cmd:next:1:2::4").is_none());
    assert!(parse_custom_id("pg:cmd:next:1:2:3:-4").is_none());
}

#[test]
fn parse_accepts_plus_and_leading_zeros() {
    let token = parse_custom_id("pg:cmd:next:+2:05:003:0").expect("numeric parse");
    assert_eq!(token.page, 2);
    assert_eq!(token.total_pages, 5);
    assert_eq!(token.user_id, 3);
    assert_eq!(token.expires_at, 0);
}

#[test]
fn parse_rejects_overflowing_numbers() {
    assert!(parse_custom_id("pg:cmd:next:1:2:3:99999999999999999999").is_none());
}

#[test]
fn modal_round_trip() {
    let id = build_modal_custom_id("permissions", 9, 77, 5000);
    assert_eq!(id, "pgm:permissions:9:77:5000");
    let token = parse_modal_custom_id(&id).expect("modal round trip");
    assert_eq!(token.command, "permissions");
    assert_eq!(token.total_pages, 9);
    assert_eq!(token.user_id, 77);
    assert_eq!(token.expires_at, 5000);
}

#[test]
fn modal_parse_rejects_pagination_tokens() {
    let id = build_custom_id("permissions", "next", 2, 5, 42, 1000);
    assert!(parse_modal_custom_id(&id).is_none());
}

#[test]
fn validate_accepts_valid_token() {
    let id = build_custom_id("help", "next", 2, 5, 42, 1000);
    let token = validate_custom_id_at(&id, "help", 42, 900).expect("valid token");
    assert_eq!(token.page, 2);
}

#[test]
fn validate_rejects_each_reason() {
    let id = build_custom_id("help", "next", 2, 5, 42, 1000);
    assert_eq!(
        validate_custom_id_at(&id, "other", 42, 900).unwrap_err(),
        PaginationValidationError::WrongCommand
    );
    assert_eq!(
        validate_custom_id_at(&id, "help", 43, 900).unwrap_err(),
        PaginationValidationError::WrongUser
    );
    assert_eq!(
        validate_custom_id_at(&id, "help", 42, 1001).unwrap_err(),
        PaginationValidationError::Expired
    );
    let bad_action = build_custom_id("help", "warp", 2, 5, 42, 1000);
    assert_eq!(
        validate_custom_id_at(&bad_action, "help", 42, 900).unwrap_err(),
        PaginationValidationError::Invalid
    );
    let zero_page = build_custom_id("help", "next", 0, 5, 42, 1000);
    assert_eq!(
        validate_custom_id_at(&zero_page, "help", 42, 900).unwrap_err(),
        PaginationValidationError::OutOfRange
    );
    let beyond = build_custom_id("help", "next", 6, 5, 42, 1000);
    assert_eq!(
        validate_custom_id_at(&beyond, "help", 42, 900).unwrap_err(),
        PaginationValidationError::OutOfRange
    );
    assert_eq!(
        validate_custom_id_at("garbage", "help", 42, 900).unwrap_err(),
        PaginationValidationError::Invalid
    );
}

#[test]
fn expired_token_is_always_rejected() {
    // Everything else about this token is valid; only the expiry is past.
    let id = build_custom_id("help", "next", 2, 5, 42, 100);
    assert!(validate_custom_id_at(&id, "help", 42, 101).is_err());
    // An expired token with another defect is still rejected.
    let id2 = build_custom_id("help", "next", 9, 5, 42, 100);
    assert!(validate_custom_id_at(&id2, "help", 42, 101).is_err());
    let id3 = build_custom_id("help", "next", 2, 5, 42, 100);
    assert!(validate_custom_id_at(&id3, "help", 7, 101).is_err());
}

#[test]
fn expiry_comparison_is_strict() {
    assert!(!is_expired_at(100, 100));
    assert!(is_expired_at(100, 101));
    assert!(!is_expired_at(100, 99));
}
