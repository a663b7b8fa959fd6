use rusty::purge::{
    bulk_delete_cutoff, channel_eligible, classify_messages, plan_bulk_chunks, plan_purge_page,
    purge_request_counts, ChannelKind, MessageFacts,
};

fn message(id: u64, author_id: u64, timestamp_secs: i64) -> MessageFacts {
    MessageFacts { id, author_id, timestamp_secs }
}

#[test]
fn purge_chunking_250_messages_gives_three_calls() {
    // 250 eligible messages, all inside the bulk-age window.
    let messages: Vec<MessageFacts> =
        (0..250).map(|i| message(10_000 - i, 7, 1_000_000)).collect();
    let plan = plan_purge_page(&messages, 7, None, 900_000);
    assert_eq!(plan.bulk_chunks.len(), 3);
    assert_eq!(plan.bulk_chunks[0].len(), 100);
    assert_eq!(plan.bulk_chunks[1].len(), 100);
    assert_eq!(plan.bulk_chunks[2].len(), 50);
    assert!(plan.single_ids.is_empty());
    let deleted: usize = plan.bulk_chunks.iter().map(|c| c.len()).sum::<usize>()
        + plan.single_ids.len();
    assert_eq!(deleted, 250);
}

#[test]
fn a_lone_bulk_candidate_is_deleted_individually() {
    let messages = vec![message(1, 7, 1_000_000)];
    let plan = plan_purge_page(&messages, 7, None, 900_000);
    assert!(plan.bulk_chunks.is_empty());
    assert_eq!(plan.single_ids, vec![1]);
}

#[test]
fn a_trailing_lone_candidate_falls_back_to_single() {
    let candidates: Vec<u64> = (0..101).collect();
    let (chunks, leftover) = plan_bulk_chunks(&candidates);
    assert_eq!(chunks.len(), 1);
    assert_eq!(chunks[0].len(), 100);
    assert_eq!(leftover, vec![100]);
    // Two candidates are enough for one bulk call.
    let two: Vec<u64> = vec![5, 6];
    let (chunks, leftover) = plan_bulk_chunks(&two);
    assert_eq!(chunks, vec![vec![5, 6]]);
    assert!(leftover.is_empty());
}

#[test]
fn classification_respects_author_cutoff_and_age() {
    let messages = vec![
        message(1, 7, 1_000_000),  // eligible, bulk
        message(2, 8, 1_000_000),  // other author
        message(3, 7, 400_000),    // predates the cutoff
        message(4, 7, 600_000),    // eligible, too old for bulk
    ];
    let (bulk, single) = classify_messages(&messages, 7, Some(500_000), 900_000);
    assert_eq!(bulk, vec![1]);
    assert_eq!(single, vec![4]);
    // Without a cutoff the old message is eligible again.
    let (bulk, single) = classify_messages(&messages, 7, None, 900_000);
    assert_eq!(bulk, vec![1]);
    assert_eq!(single, vec![3, 4]);
}

#[test]
fn purge_cutoff_stops_the_walk_after_the_page() {
    // The oldest (last-fetched) message predates the cutoff T.
    let messages = vec![message(9, 7, 800_000), message(8, 7, 400_000)];
    let plan = plan_purge_page(&messages, 7, Some(500_000), 0);
    assert!(plan.stop_for_cutoff);
    assert!(!plan.fetch_next_page);
    // The page itself is still processed: the newer message is deleted.
    assert_eq!(plan.single_ids.len() + plan.bulk_chunks.iter().map(|c| c.len()).sum::<usize>(), 1);
    assert_eq!(plan.next_cursor, Some(8));
}

#[test]
fn walk_continues_while_pages_stay_inside_the_cutoff() {
    let messages = vec![message(9, 7, 800_000), message(8, 7, 600_000)];
    let plan = plan_purge_page(&messages, 7, Some(500_000), 0);
    assert!(!plan.stop_for_cutoff);
    assert!(plan.fetch_next_page);
    assert_eq!(plan.next_cursor, Some(8));
}

#[test]
fn an_empty_page_exhausts_the_channel() {
    let messages: Vec<MessageFacts> = vec![];
    let plan = plan_purge_page(&messages, 7, Some(500_000), 0);
    assert!(!plan.fetch_next_page);
    assert_eq!(plan.next_cursor, None);
    assert!(!plan.stop_for_cutoff);
}

#[test]
fn only_text_bearing_channels_participate() {
    assert!(channel_eligible(ChannelKind::GuildText));
    assert!(channel_eligible(ChannelKind::GuildAnnouncement));
    assert!(channel_eligible(ChannelKind::PublicThread));
    assert!(channel_eligible(ChannelKind::PrivateThread));
    assert!(!channel_eligible(ChannelKind::Other));
}

#[test]
fn bulk_cutoff_is_the_age_limit_minus_the_margin() {
    // Fourteen days minus one hour, in seconds.
    let window = 14 * 24 * 60 * 60 - 60 * 60;
    assert_eq!(bulk_delete_cutoff(2_000_000_000), 2_000_000_000 - window);
    // Near the epoch the cutoff floors at zero.
    assert_eq!(bulk_delete_cutoff(10), 0);
}


#[test]
fn purge_request_amounts_are_capped() {
    assert_eq!(purge_request_counts(5), (5, 6));
    assert_eq!(purge_request_counts(99), (99, 100));
    assert_eq!(purge_request_counts(100), (100, 100));
    assert_eq!(purge_request_counts(250), (100, 100));
    assert_eq!(purge_request_counts(1), (1, 2));
}
