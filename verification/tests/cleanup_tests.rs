use rusty::cleanup::{cleanup_delay_secs, should_schedule_cleanup, CleanupScheduler};

#[test]
fn supersession_cancels_the_previous_task() {
    let mut registry = CleanupScheduler::new();
    let (cancelled1, gen1) = registry.schedule(111);
    assert_eq!(cancelled1, None);
    let (cancelled2, gen2) = registry.schedule(111);
    // The second scheduling for the same message cancels the first.
    assert_eq!(cancelled2, Some(gen1));
    assert_ne!(gen1, gen2);
    // The superseded generation may never strip controls.
    assert!(!registry.complete(111, gen1));
    // The live generation strips exactly once.
    assert!(registry.complete(111, gen2));
    assert!(!registry.complete(111, gen2));
}

#[test]
fn different_messages_do_not_interfere() {
    let mut registry = CleanupScheduler::new();
    let (_, gen_a) = registry.schedule(1);
    let (cancelled_b, gen_b) = registry.schedule(2);
    assert_eq!(cancelled_b, None);
    assert!(registry.complete(1, gen_a));
    assert!(registry.complete(2, gen_b));
}

#[test]
fn completing_an_unknown_task_does_nothing() {
    let mut registry = CleanupScheduler::new();
    assert!(!registry.complete(5, 0));
    let (_, generation) = registry.schedule(5);
    assert!(!registry.complete(5, generation + 1));
    assert!(registry.complete(5, generation));
}

#[test]
fn rescheduling_after_firing_starts_a_new_generation() {
    let mut registry = CleanupScheduler::new();
    let (_, gen1) = registry.schedule(9);
    assert!(registry.complete(9, gen1));
    let (cancelled, gen2) = registry.schedule(9);
    // The fired task removed itself, so nothing is cancelled.
    assert_eq!(cancelled, None);
    assert!(registry.complete(9, gen2));
}

#[test]
fn cleanup_policy_rules() {
    assert!(!should_schedule_cleanup(0));
    assert!(!should_schedule_cleanup(1));
    assert!(should_schedule_cleanup(2));
    assert_eq!(cleanup_delay_secs(120), 119);
    assert_eq!(cleanup_delay_secs(1), 0);
    assert_eq!(cleanup_delay_secs(0), 0);
}
