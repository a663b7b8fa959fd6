use rusty::messages::{
    avatar_url, default_avatar_url, fallback_target_profile, guild_only_message,
    moderation_action_description, moderation_action_headline,
    moderation_invalid_interaction_message, moderation_permission_combo_denied_message,
    moderation_self_action_message, page_out_of_range_message, permission_denied_message,
    sanitize_reason, target_profile_from_user, usage_message, warnings_window_label_days,
};
use rusty::warnings::{warnings_overview_description, WarningEntry};

#[test]
fn plain_message_builders() {
    assert_eq!(usage_message("!ban <user> [reason]"), "Usage: `!ban <user> [reason]`");
    assert_eq!(guild_only_message(), "This command only works in servers.");
    assert_eq!(permission_denied_message(), "You are not permitted to use this command.");
    assert_eq!(
        moderation_permission_combo_denied_message("Ban Members and Manage Messages"),
        "You need Ban Members and Manage Messages permissions to use this command."
    );
    assert_eq!(moderation_self_action_message("terminate"), "You can't terminate yourself.");
    assert_eq!(moderation_invalid_interaction_message("terminate"), "Invalid terminate interaction.");
    assert_eq!(warnings_window_label_days(30), "last 30 day(s)");
    assert_eq!(
        page_out_of_range_message(4, 3),
        "Page 4 does not exist. Available pages: 1-3."
    );
}

#[test]
fn sanitizing_disarms_mentions() {
    assert_eq!(sanitize_reason("@everyone hi"), "@\u{200B}everyone hi");
    assert_eq!(sanitize_reason("no mentions"), "no mentions");
    assert_eq!(sanitize_reason("a@b@c"), "a@\u{200B}b@\u{200B}c");
    assert_eq!(sanitize_reason(""), "");
    assert_eq!(sanitize_reason("@"), "@\u{200B}");
}

#[test]
fn profile_building() {
    let fallback = fallback_target_profile(42);
    assert_eq!(fallback.display_name, "User 42");
    assert!(fallback.avatar_url.is_none());

    assert_eq!(
        avatar_url(42, "abc123"),
        "https://cdn.discordapp.com/avatars/42/abc123.png?size=128"
    );
    let id: u64 = 5 << 22;
    assert_eq!(default_avatar_url(id), "https://cdn.discordapp.com/embed/avatars/5.png");

    let with_global = target_profile_from_user(
        42,
        Some("Display".to_string()),
        "account".to_string(),
        Some("abc123"),
    );
    assert_eq!(with_global.display_name, "Display");
    assert_eq!(
        with_global.avatar_url.as_deref(),
        Some("https://cdn.discordapp.com/avatars/42/abc123.png?size=128")
    );

    let without_global = target_profile_from_user(42, None, "account".to_string(), None);
    assert_eq!(without_global.display_name, "account");
    assert!(without_global.avatar_url.unwrap().starts_with(
        "https://cdn.discordapp.com/embed/avatars/"
    ));
}

#[test]
fn action_description_and_headline() {
    assert_eq!(
        moderation_action_description(42, Some("spam @everyone"), None),
        "Target: <@42>\nReason: spam @\u{200B}everyone"
    );
    assert_eq!(
        moderation_action_description(42, None, Some("10m")),
        "Target: <@42>\nReason: No reason provided\nDuration: 10m"
    );
    assert_eq!(moderation_action_headline("Someone", "banned"), "Someone has been banned");
}

fn entry(warned_at: u64, moderator_id: u64, reason: &str) -> WarningEntry {
    WarningEntry { warned_at, moderator_id, reason: reason.to_string() }
}

#[test]
fn warnings_overview_empty_window() {
    let entries: Vec<WarningEntry> = vec![];
    assert_eq!(
        warnings_overview_description("last 30 day(s)", &entries),
        "Total warnings in last 30 day(s): **0**\n\nNo warnings in this period."
    );
}

#[test]
fn warnings_overview_lists_only_the_last_five() {
    let entries: Vec<WarningEntry> =
        (1..=6).map(|i| entry(1000 + i, 50 + i, "spam")).collect();
    let overview = warnings_overview_description("all time", &entries);
    assert!(overview.starts_with("Total warnings in all time: **6**\n\n"));
    // The first (oldest) entry is not listed; entries two to six are.
    assert!(!overview.contains("#1 "));
    for i in 2..=6 {
        assert!(overview.contains(&format!("#{} \u{2022} <t:{}:F> \u{2022} by <@{}>", i, 1000 + i, 50 + i)));
    }
    assert!(overview.contains("Reason: spam"));
}

#[test]
fn warnings_overview_sanitizes_reasons() {
    let entries = vec![entry(1000, 50, "ping @here")];
    let overview = warnings_overview_description("all time", &entries);
    assert!(overview.contains("Reason: ping @\u{200B}here"));
}
