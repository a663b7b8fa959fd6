use rusty::dispatch::{build_test_items, route_interaction, InteractionRoute};
use rusty::help::{
    category_from_pagination_command, command_catalog, display_category, grouped_help_description,
    help_pagination_command, help_view, sorted_commands, CommandMeta, HelpOutcome,
};

/// Fourteen commands across two categories, as the end-to-end scenario
/// prescribes.
fn fourteen_commands() -> Vec<CommandMeta> {
    let mut commands = command_catalog();
    assert_eq!(commands.len(), 15);
    commands.pop();
    assert_eq!(commands.len(), 14);
    commands
}

#[test]
fn help_with_page_size_20_renders_one_page_without_controls() {
    let commands = fourteen_commands();
    match help_view(&commands, None, 20, 42, 1000) {
        HelpOutcome::Render { nav, total_pages, .. } => {
            assert_eq!(total_pages, 1);
            assert!(nav.is_empty());
        }
        _ => panic!("expected a rendered page"),
    }
}

#[test]
fn help_with_page_size_6_has_three_pages() {
    let commands = fourteen_commands();
    match help_view(&commands, None, 6, 42, 1000) {
        HelpOutcome::Render { nav, total_pages, pagination_command, .. } => {
            assert_eq!(total_pages, 3);
            assert_eq!(nav.len(), 3);
            assert_eq!(pagination_command, "help");
        }
        _ => panic!("expected a rendered page"),
    }
}

#[test]
fn help_page_past_the_end_is_refused_not_rendered() {
    let commands = fourteen_commands();
    match help_view(&commands, Some("4"), 6, 42, 1000) {
        HelpOutcome::PageOutOfRange { message } => {
            assert_eq!(message, "Page 4 does not exist. Available pages: 1-3.");
        }
        _ => panic!("expected a bounds-exceeded message"),
    }
}

#[test]
fn help_unknown_category_is_refused() {
    let commands = fourteen_commands();
    match help_view(&commands, Some("nonsense"), 6, 42, 1000) {
        HelpOutcome::UnknownCategory { message } => {
            assert_eq!(
                message,
                "Unknown category: Nonsense\nValid categories: Moderation, Utility"
            );
        }
        _ => panic!("expected an unknown-category message"),
    }
}

#[test]
fn help_category_filter_renders_that_category() {
    let commands = fourteen_commands();
    match help_view(&commands, Some("utility"), 20, 42, 1000) {
        HelpOutcome::Render { embed, total_pages, pagination_command, .. } => {
            assert_eq!(total_pages, 1);
            assert_eq!(pagination_command, "help|utility");
            assert!(embed.description.contains("**Utility**"));
            assert!(!embed.description.contains("**Moderation**"));
        }
        _ => panic!("expected a rendered page"),
    }
}

#[test]
fn sorted_commands_orders_by_category_then_name() {
    let commands = command_catalog();
    let sorted = sorted_commands(&commands, None);
    assert_eq!(sorted.len(), commands.len());
    for pair in sorted.windows(2) {
        let ordered = pair[0].category < pair[1].category
            || (pair[0].category == pair[1].category && pair[0].name <= pair[1].name);
        assert!(ordered, "{}/{} before {}/{}", pair[0].category, pair[0].name, pair[1].category,
            pair[1].name);
    }
    let moderation_only = sorted_commands(&commands, Some("moderation"));
    assert!(moderation_only.iter().all(|c| c.category == "moderation"));
    assert!(!moderation_only.is_empty());
}

#[test]
fn grouped_description_headers_and_bullets() {
    let commands = vec![
        CommandMeta { name: "ping", desc: "Replies with Pong!", category: "utility", usage: "!ping" },
        CommandMeta {
            name: "ban",
            desc: "Ban a user from the server.",
            category: "moderation",
            usage: "!ban <user> [reason]",
        },
    ];
    let sorted = sorted_commands(&commands, None);
    let description = grouped_help_description(&sorted);
    assert_eq!(
        description,
        "**Moderation**\n\u{2022} !ban - Ban a user from the server.\n\n**Utility**\n\u{2022} !ping - Replies with Pong!"
    );
    let empty: Vec<CommandMeta> = vec![];
    assert_eq!(grouped_help_description(&empty), "No commands available.");
}

#[test]
fn category_display_capitalizes_ascii() {
    assert_eq!(display_category("utility"), "Utility");
    assert_eq!(display_category("Moderation"), "Moderation");
    assert_eq!(display_category(""), "");
}

#[test]
fn pagination_command_carries_the_category_family() {
    assert_eq!(help_pagination_command(None), "help");
    assert_eq!(help_pagination_command(Some("utility")), "help|utility");
    assert_eq!(category_from_pagination_command("help|utility").as_deref(), Some("utility"));
    assert_eq!(category_from_pagination_command("help"), None);
}

#[test]
fn interaction_routing_by_prefix() {
    assert_eq!(
        route_interaction("pg:permissions:next:1:2:3:4"),
        Some(InteractionRoute::PermissionsButtons)
    );
    assert_eq!(route_interaction("pg:help|utility:next:1:2:3:4"), Some(InteractionRoute::HelpButtons));
    assert_eq!(route_interaction("pg:pagetest:next:1:2:3:4"), Some(InteractionRoute::PagetestButtons));
    assert_eq!(route_interaction("terminate:confirm:1:2:0"), Some(InteractionRoute::TerminateButtons));
    assert_eq!(route_interaction("pgm:permissions:2:3:4"), Some(InteractionRoute::PermissionsModal));
    assert_eq!(route_interaction("pgm:help:2:3:4"), Some(InteractionRoute::HelpModal));
    assert_eq!(route_interaction("pgm:pagetest:2:3:4"), Some(InteractionRoute::PagetestModal));
    assert_eq!(route_interaction("pg:unknown:next:1:2:3:4"), None);
    assert_eq!(route_interaction(""), None);
}

#[test]
fn test_items_are_numbered_from_one() {
    let items = build_test_items();
    assert_eq!(items.len(), 24);
    assert_eq!(items[0], "Sample pagination item #1");
    assert_eq!(items[23], "Sample pagination item #24");
}
