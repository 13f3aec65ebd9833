use myfeed::db::{count_empty_streak, insert_outcome, item_is_new, needs_freshness_check};
use myfeed::scheduler::CrawlCompleteEvent;

fn crawl(items_found: usize) -> Option<CrawlCompleteEvent> {
    Some(CrawlCompleteEvent { items_found, new_items: 0 })
}

#[test]
fn brand_new_items_are_always_new() {
    assert!(item_is_new(false, 0, true));
    assert!(item_is_new(false, 24, true));
    assert!(!needs_freshness_check(false, 24));
}

#[test]
fn window_zero_never_renotifies() {
    assert!(!item_is_new(true, 0, false));
    assert!(!item_is_new(true, 0, true));
    assert!(!needs_freshness_check(true, 0));
}

#[test]
fn window_renotifies_only_stale_rows() {
    assert!(needs_freshness_check(true, 6));
    assert!(item_is_new(true, 6, false));
    assert!(!item_is_new(true, 6, true));
}

#[test]
fn empty_streak_counts_latest_empty_crawls() {
    assert_eq!(count_empty_streak(&vec![]), 0);
    assert_eq!(count_empty_streak(&vec![crawl(0), crawl(0), crawl(0), crawl(5), crawl(0)]), 3);
    assert_eq!(count_empty_streak(&vec![crawl(2), crawl(0), crawl(0)]), 0);
    // Unreadable details are passed over.
    assert_eq!(count_empty_streak(&vec![crawl(0), None, crawl(0), crawl(1)]), 2);
}

#[test]
fn insert_reports_inserted_and_new() {
    assert_eq!(insert_outcome(false, 0, false), (true, true));
    assert_eq!(insert_outcome(true, 0, false), (false, false));
    assert_eq!(insert_outcome(true, 6, false), (false, true));
    assert_eq!(insert_outcome(true, 6, true), (false, false));
}
