use rusty::parse::{parse_duration_seconds, parse_target_user_id, parse_timeout_args};
use rusty::perms::{
    combine_role_permissions, permission_allows, ADMINISTRATOR_BIT, BAN_MEMBERS_BIT,
    MANAGE_MESSAGES_BIT,
};
use rusty::warnings::{parse_window, window_since, WarningWindow};

#[test]
fn target_user_forms() {
    assert_eq!(parse_target_user_id("<@123>"), Some(123));
    assert_eq!(parse_target_user_id("<@!123>"), Some(123));
    assert_eq!(parse_target_user_id("123"), Some(123));
    assert_eq!(parse_target_user_id("  123  "), Some(123));
    assert_eq!(parse_target_user_id("<@abc>"), None);
    assert_eq!(parse_target_user_id("<@>"), None);
    assert_eq!(parse_target_user_id(""), None);
    assert_eq!(parse_target_user_id("not a user"), None);
}

#[test]
fn duration_units() {
    assert_eq!(parse_duration_seconds("30s"), Some(30));
    assert_eq!(parse_duration_seconds("30S"), Some(30));
    assert_eq!(parse_duration_seconds("10m"), Some(600));
    assert_eq!(parse_duration_seconds("10M"), Some(600));
    assert_eq!(parse_duration_seconds("2h"), Some(7200));
    assert_eq!(parse_duration_seconds("1d"), Some(86400));
    assert_eq!(parse_duration_seconds("45"), Some(45));
    assert_eq!(parse_duration_seconds(" 45 "), Some(45));
}

#[test]
fn duration_rejections() {
    assert_eq!(parse_duration_seconds("0s"), None);
    assert_eq!(parse_duration_seconds("0"), None);
    assert_eq!(parse_duration_seconds(""), None);
    assert_eq!(parse_duration_seconds("x"), None);
    assert_eq!(parse_duration_seconds("5w"), None);
    assert_eq!(parse_duration_seconds("s"), None);
    // u64::MAX days overflows the multiplication.
    assert_eq!(parse_duration_seconds("18446744073709551615d"), None);
}

#[test]
fn warning_window_choices() {
    assert_eq!(parse_window(None), WarningWindow::Days(30));
    assert_eq!(parse_window(Some("all")), WarningWindow::All);
    assert_eq!(parse_window(Some("ALL")), WarningWindow::All);
    assert_eq!(parse_window(Some("All extra words")), WarningWindow::All);
    assert_eq!(parse_window(Some("7")), WarningWindow::Days(7));
    assert_eq!(parse_window(Some("7 extra")), WarningWindow::Days(7));
    assert_eq!(parse_window(Some("0")), WarningWindow::Days(30));
    assert_eq!(parse_window(Some("abc")), WarningWindow::Days(30));
    assert_eq!(parse_window(Some("   ")), WarningWindow::Days(30));
}

#[test]
fn window_lower_bound() {
    assert_eq!(window_since(WarningWindow::Days(1), 100_000), 100_000 - 86_400);
    assert_eq!(window_since(WarningWindow::Days(2), 86_400), 0);
    assert_eq!(window_since(WarningWindow::All, 100_000), 0);
}

#[test]
fn permission_checks() {
    assert!(permission_allows(ADMINISTRATOR_BIT, BAN_MEMBERS_BIT));
    assert!(permission_allows(BAN_MEMBERS_BIT | MANAGE_MESSAGES_BIT, BAN_MEMBERS_BIT));
    assert!(permission_allows(
        BAN_MEMBERS_BIT | MANAGE_MESSAGES_BIT,
        BAN_MEMBERS_BIT | MANAGE_MESSAGES_BIT
    ));
    assert!(!permission_allows(BAN_MEMBERS_BIT, MANAGE_MESSAGES_BIT));
    assert!(!permission_allows(BAN_MEMBERS_BIT, BAN_MEMBERS_BIT | MANAGE_MESSAGES_BIT));
    assert!(!permission_allows(0, BAN_MEMBERS_BIT));
}

#[test]
fn role_permissions_combine_by_union() {
    let roles = vec![BAN_MEMBERS_BIT, MANAGE_MESSAGES_BIT];
    let resolved = combine_role_permissions(&roles);
    assert_eq!(resolved, BAN_MEMBERS_BIT | MANAGE_MESSAGES_BIT);
    assert_eq!(combine_role_permissions(&vec![]), 0);
}


#[test]
fn timeout_args_with_duration_and_reason() {
    let args = parse_timeout_args(Some("30s repeated spam"));
    assert_eq!(args.duration_secs, 30);
    assert_eq!(args.duration_label, "30s");
    assert_eq!(args.reason.as_deref(), Some("repeated spam"));
}

#[test]
fn timeout_args_with_duration_only() {
    let args = parse_timeout_args(Some("2h"));
    assert_eq!(args.duration_secs, 7200);
    assert_eq!(args.duration_label, "2h");
    assert_eq!(args.reason, None);
}

#[test]
fn timeout_args_without_duration_default_and_keep_the_reason() {
    let args = parse_timeout_args(Some("being rude"));
    assert_eq!(args.duration_secs, 600);
    assert_eq!(args.duration_label, "10m");
    assert_eq!(args.reason.as_deref(), Some("being rude"));
}

#[test]
fn timeout_args_without_tail() {
    let args = parse_timeout_args(None);
    assert_eq!(args.duration_secs, 600);
    assert_eq!(args.duration_label, "10m");
    assert_eq!(args.reason, None);
}
