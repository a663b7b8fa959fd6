use rusty::confirm::{
    build_confirmation_custom_id, build_confirmation_custom_ids, parse_confirmation_custom_id,
    parse_terminate_args_at, terminate_confirmation_decision, ConfirmationAction,
    ParsedConfirmationAction, TerminateDecision,
};

#[test]
fn confirmation_ids_exact_wire_form() {
    let (confirm, decline) = build_confirmation_custom_ids("terminate:", 1, 2, Some(3));
    assert_eq!(confirm, "terminate:confirm:1:2:3");
    assert_eq!(decline, "terminate:decline:1:2:3");
    let absent = build_confirmation_custom_id("terminate:", ConfirmationAction::Confirm, 1, 2, None);
    assert_eq!(absent, "terminate:confirm:1:2:0");
}

#[test]
fn confirmation_round_trip() {
    let id = build_confirmation_custom_id(
        "terminate:",
        ConfirmationAction::Decline,
        10,
        20,
        Some(30),
    );
    let parsed = parse_confirmation_custom_id(&id, "terminate:").expect("round trip");
    assert_eq!(parsed.action, ConfirmationAction::Decline);
    assert_eq!(parsed.requester_id, 10);
    assert_eq!(parsed.target_id, 20);
    assert_eq!(parsed.context_value, Some(30));
}

#[test]
fn zero_context_decodes_as_absent() {
    let parsed =
        parse_confirmation_custom_id("terminate:confirm:1:2:0", "terminate:").expect("parse");
    assert_eq!(parsed.context_value, None);
}

#[test]
fn confirmation_parse_rejections() {
    assert!(parse_confirmation_custom_id("other:confirm:1:2:3", "terminate:").is_none());
    assert!(parse_confirmation_custom_id("terminate:maybe:1:2:3", "terminate:").is_none());
    assert!(parse_confirmation_custom_id("terminate:confirm:1:2", "terminate:").is_none());
    assert!(parse_confirmation_custom_id("terminate:confirm:1:2:3:4", "terminate:").is_none());
    assert!(parse_confirmation_custom_id("terminate:confirm:x:2:3", "terminate:").is_none());
}

fn parsed(action: ConfirmationAction) -> ParsedConfirmationAction {
    ParsedConfirmationAction { action, requester_id: 10, target_id: 20, context_value: None }
}

#[test]
fn termination_decision_order() {
    let confirm = parsed(ConfirmationAction::Confirm);
    let decline = parsed(ConfirmationAction::Decline);
    assert_eq!(
        terminate_confirmation_decision(&confirm, 11, true, true),
        TerminateDecision::NotRequester
    );
    assert_eq!(
        terminate_confirmation_decision(&confirm, 10, false, true),
        TerminateDecision::GuildOnly
    );
    assert_eq!(
        terminate_confirmation_decision(&confirm, 10, true, false),
        TerminateDecision::MissingPermissions
    );
    assert_eq!(
        terminate_confirmation_decision(&decline, 10, true, true),
        TerminateDecision::Declined
    );
    assert_eq!(
        terminate_confirmation_decision(&confirm, 10, true, true),
        TerminateDecision::Proceed
    );
}

#[test]
fn terminate_args_with_duration_and_reason() {
    let args = parse_terminate_args_at(Some("30s spamming links"), 100);
    assert_eq!(args.cutoff_secs, Some(70));
    assert_eq!(args.window_display, "30s");
    assert_eq!(args.reason.as_deref(), Some("spamming links"));
}

#[test]
fn terminate_args_with_duration_only() {
    let args = parse_terminate_args_at(Some("2h"), 10_000);
    assert_eq!(args.cutoff_secs, Some(10_000 - 7200));
    assert_eq!(args.window_display, "2h");
    assert_eq!(args.reason, None);
}

#[test]
fn terminate_args_without_duration_treat_the_tail_as_reason() {
    let args = parse_terminate_args_at(Some("spamming links"), 100);
    assert_eq!(args.cutoff_secs, None);
    assert_eq!(args.window_display, "all-time");
    assert_eq!(args.reason.as_deref(), Some("spamming links"));
}

#[test]
fn terminate_args_without_tail() {
    let args = parse_terminate_args_at(None, 100);
    assert_eq!(args.cutoff_secs, None);
    assert_eq!(args.window_display, "all-time");
    assert_eq!(args.reason, None);
}

#[test]
fn terminate_cutoff_floors_at_the_epoch() {
    let args = parse_terminate_args_at(Some("1d"), 100);
    assert_eq!(args.cutoff_secs, Some(0));
}
