use rusty::interaction::{
    belongs_to_family, parse_jump_modal_page, validate_component_for_command_at,
    validate_component_for_command_prefix_at, validate_jump_modal_at, ComponentDisposition,
    ModalDisposition,
};
use rusty::token::{build_custom_id, build_modal_custom_id};

#[test]
fn component_press_valid_flow() {
    let id = build_custom_id("help", "next", 2, 5, 42, 1000);
    match validate_component_for_command_at(&id, "help", Some(42), 900) {
        ComponentDisposition::Valid { actor_user_id, token } => {
            assert_eq!(actor_user_id, 42);
            assert_eq!(token.page, 2);
            assert_eq!(token.command, "help");
        }
        _ => panic!("expected a valid press"),
    }
}

#[test]
fn component_press_refusals() {
    let id = build_custom_id("help", "next", 2, 5, 42, 1000);
    assert!(matches!(
        validate_component_for_command_at(&id, "pagetest", Some(42), 900),
        ComponentDisposition::NotForCommand
    ));
    assert!(matches!(
        validate_component_for_command_at(&id, "help", None, 900),
        ComponentDisposition::RespondMissingUser
    ));
    assert!(matches!(
        validate_component_for_command_at(&id, "help", Some(7), 900),
        ComponentDisposition::RespondWrongUser
    ));
    assert!(matches!(
        validate_component_for_command_at(&id, "help", Some(42), 1001),
        ComponentDisposition::RespondExpired
    ));
    let malformed = "pg:help:next:zzz:5:42:1000";
    assert!(matches!(
        validate_component_for_command_at(malformed, "help", Some(42), 900),
        ComponentDisposition::RespondInvalid
    ));
    let out_of_range = build_custom_id("help", "next", 9, 5, 42, 1000);
    assert!(matches!(
        validate_component_for_command_at(&out_of_range, "help", Some(42), 900),
        ComponentDisposition::RespondInvalid
    ));
}

#[test]
fn family_membership() {
    assert!(belongs_to_family("help", "help"));
    assert!(belongs_to_family("help|utility", "help"));
    assert!(!belongs_to_family("helper", "help"));
    assert!(!belongs_to_family("permissions", "help"));
}

#[test]
fn component_press_for_a_family() {
    let id = build_custom_id("help|utility", "next", 2, 5, 42, 1000);
    match validate_component_for_command_prefix_at(&id, "help", Some(42), 900) {
        ComponentDisposition::Valid { token, .. } => {
            assert_eq!(token.command, "help|utility");
        }
        _ => panic!("expected a valid press"),
    }
    // A lookalike command outside the family is ignored.
    let other = build_custom_id("helper", "next", 2, 5, 42, 1000);
    assert!(matches!(
        validate_component_for_command_prefix_at(&other, "help", Some(42), 900),
        ComponentDisposition::NotForCommand
    ));
}

#[test]
fn jump_modal_valid_flow() {
    let id = build_modal_custom_id("help|utility", 5, 42, 1000);
    match validate_jump_modal_at(&id, Some(" 3 "), "help", false, Some(42), 900) {
        ModalDisposition::Valid { actor_user_id, command, requested_page, total_pages_hint } => {
            assert_eq!(actor_user_id, 42);
            assert_eq!(command, "help|utility");
            assert_eq!(requested_page, 3);
            assert_eq!(total_pages_hint, 5);
        }
        _ => panic!("expected a valid submit"),
    }
}

#[test]
fn jump_modal_refusals() {
    let id = build_modal_custom_id("help", 5, 42, 1000);
    assert!(matches!(
        validate_jump_modal_at(&id, Some("3"), "pagetest", false, Some(42), 900),
        ModalDisposition::NotForCommand
    ));
    // The exact mode refuses family members.
    let family = build_modal_custom_id("help|utility", 5, 42, 1000);
    assert!(matches!(
        validate_jump_modal_at(&family, Some("3"), "help", true, Some(42), 900),
        ModalDisposition::NotForCommand
    ));
    assert!(matches!(
        validate_jump_modal_at(&id, Some("3"), "help", true, None, 900),
        ModalDisposition::RespondMissingUser
    ));
    assert!(matches!(
        validate_jump_modal_at(&id, Some("3"), "help", true, Some(7), 900),
        ModalDisposition::RespondWrongUser
    ));
    assert!(matches!(
        validate_jump_modal_at(&id, Some("3"), "help", true, Some(42), 1001),
        ModalDisposition::RespondExpired
    ));
    assert!(matches!(
        validate_jump_modal_at(&id, Some("zero"), "help", true, Some(42), 900),
        ModalDisposition::RespondInvalidPage
    ));
    assert!(matches!(
        validate_jump_modal_at(&id, None, "help", true, Some(42), 900),
        ModalDisposition::RespondInvalidPage
    ));
}

#[test]
fn jump_modal_page_input_parsing() {
    assert_eq!(parse_jump_modal_page(" 3 "), Some(3));
    assert_eq!(parse_jump_modal_page("3"), Some(3));
    assert_eq!(parse_jump_modal_page("0"), None);
    assert_eq!(parse_jump_modal_page(""), None);
    assert_eq!(parse_jump_modal_page("three"), None);
}
