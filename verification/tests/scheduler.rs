use myfeed::config::{Config, DedupOverrides};
use myfeed::proto::FeedItem;
use myfeed::scheduler::{
    format_digest, plan_delivery, stale_recipe_warning, Action, Delivery, Event, Scheduler,
};

fn config(sites: &[&str], feed: bool, keywords: &[&str], digest: bool) -> Config {
    Config {
        cdp_endpoint: "http://localhost:9222".to_string(),
        database_url: "myfeed.db".to_string(),
        telegram_bot_token: String::new(),
        telegram_chat_id: String::new(),
        crawl_interval_secs: 1800,
        enabled_sites: sites.iter().map(|s| s.to_string()).collect(),
        feed_output_path: if feed { Some("feed.xml".to_string()) } else { None },
        feed_item_count: 100,
        filter_keywords: keywords.iter().map(|s| s.to_string()).collect(),
        digest_mode: digest,
        dedup_window_hours: 0,
        dedup_overrides: DedupOverrides::new(),
    }
}

fn item(title: &str, url: &str, preview: &str) -> FeedItem {
    FeedItem {
        id: title.to_string(),
        title: title.to_string(),
        url: url.to_string(),
        preview: preview.to_string(),
        site_data: None,
    }
}

#[test]
fn cycle_without_failures_crawls_each_site_then_feed_then_sleep() {
    let mut s = Scheduler::new(&config(&["hackernews", "reddit"], true, &[], false));
    assert_eq!(s.step(Event::Done), Action::CleanupEvents { retention_days: 30 });
    assert_eq!(s.step(Event::Done), Action::CrawlSite { site: 0, timeout_secs: 120 });
    assert_eq!(s.step(Event::CrawlSucceeded), Action::CrawlSite { site: 1, timeout_secs: 120 });
    assert_eq!(s.step(Event::CrawlSucceeded), Action::WriteFeed { item_count: 100 });
    assert_eq!(s.step(Event::Done), Action::SleepInterval { secs: 1800 });
    // The next cycle starts over with the cleanup.
    assert_eq!(s.step(Event::Done), Action::CleanupEvents { retention_days: 30 });
}

#[test]
fn cycle_without_feed_or_sites_goes_straight_to_sleep() {
    let mut s = Scheduler::new(&config(&[], false, &[], false));
    assert_eq!(s.step(Event::Done), Action::CleanupEvents { retention_days: 30 });
    assert_eq!(s.step(Event::Done), Action::SleepInterval { secs: 1800 });
}

#[test]
fn site_failing_every_attempt_is_tried_three_times_and_logged() {
    let mut s = Scheduler::new(&config(&["x", "reddit"], false, &[], false));
    s.step(Event::Done);
    assert_eq!(s.step(Event::Done), Action::CrawlSite { site: 0, timeout_secs: 120 });
    assert_eq!(s.step(Event::CrawlFailed("no tab".to_string())), Action::Wait { secs: 5 });
    assert_eq!(s.step(Event::Done), Action::CrawlSite { site: 0, timeout_secs: 120 });
    assert_eq!(s.step(Event::CrawlTimedOut), Action::Wait { secs: 5 });
    assert_eq!(s.step(Event::Done), Action::CrawlSite { site: 0, timeout_secs: 120 });
    assert_eq!(
        s.step(Event::CrawlFailed("selector missing".to_string())),
        Action::LogCrawlError { site: 0, error: "selector missing".to_string() }
    );
    assert_eq!(s.step(Event::Done), Action::CrawlSite { site: 1, timeout_secs: 120 });
}

#[test]
fn timed_out_last_attempt_logs_the_timeout() {
    let mut s = Scheduler::new(&config(&["x"], false, &[], false));
    s.step(Event::Done);
    s.step(Event::Done);
    s.step(Event::CrawlTimedOut);
    s.step(Event::Done);
    s.step(Event::CrawlTimedOut);
    s.step(Event::Done);
    assert_eq!(
        s.step(Event::CrawlTimedOut),
        Action::LogCrawlError { site: 0, error: "crawl timed out after 120s".to_string() }
    );
    assert_eq!(s.step(Event::Done), Action::SleepInterval { secs: 1800 });
}

#[test]
fn retry_then_success_moves_on() {
    let mut s = Scheduler::new(&config(&["x", "reddit"], true, &[], false));
    s.step(Event::Done);
    s.step(Event::Done);
    assert_eq!(s.step(Event::CrawlFailed("boom".to_string())), Action::Wait { secs: 5 });
    assert_eq!(s.step(Event::Done), Action::CrawlSite { site: 0, timeout_secs: 120 });
    assert_eq!(s.step(Event::CrawlSucceeded), Action::CrawlSite { site: 1, timeout_secs: 120 });
}

#[test]
fn digest_message_exact() {
    let items = vec![item("A & B", "https://a.example", ""), item("<C>", "", "")];
    assert_eq!(
        format_digest("hn", &items),
        "<b>[hn] 2 new items</b>\n\n- <a href=\"https://a.example\">A &amp; B</a>\n- &lt;C&gt;\n"
    );
}

#[test]
fn stale_warning_from_three_empty_crawls() {
    assert_eq!(stale_recipe_warning("zhihu", 2), None);
    assert_eq!(
        stale_recipe_warning("zhihu", 3),
        Some(
            "Warning: zhihu has returned 0 items for 3 consecutive crawls. The recipe may need updating."
                .to_string()
        )
    );
    assert_eq!(
        stale_recipe_warning("zhihu", 12).unwrap(),
        "Warning: zhihu has returned 0 items for 12 consecutive crawls. The recipe may need updating."
    );
}

#[test]
fn delivery_only_new_items_passing_filter() {
    let items = vec![
        item("Rust 2.0", "https://r.example", ""),
        item("Rust again", "", ""),
        item("Python", "", "web"),
    ];
    let is_new = vec![true, false, true];
    let cfg = config(&["hn"], false, &["rust"], false);
    let out = plan_delivery(&cfg, "hn", &items, &is_new);
    assert_eq!(out.items_found, 3);
    assert_eq!(out.new_items, 1);
    match out.delivery {
        Delivery::EachItem(v) => {
            assert_eq!(v.len(), 1);
            assert_eq!(v[0].title, "Rust 2.0");
        }
        other => panic!("unexpected delivery {other:?}"),
    }
}

#[test]
fn delivery_digest_and_nothing() {
    let items = vec![item("One", "", ""), item("Two", "https://t.example", "")];
    let cfg = config(&["hn"], false, &[], true);
    let out = plan_delivery(&cfg, "hn", &items, &vec![true, true]);
    assert_eq!(out.new_items, 2);
    match out.delivery {
        Delivery::Digest(m) => assert_eq!(
            m,
            "<b>[hn] 2 new items</b>\n\n- One\n- <a href=\"https://t.example\">Two</a>\n"
        ),
        other => panic!("unexpected delivery {other:?}"),
    }
    let none = plan_delivery(&cfg, "hn", &items, &vec![false, false]);
    assert_eq!(none.items_found, 2);
    assert_eq!(none.new_items, 0);
    assert!(matches!(none.delivery, Delivery::Nothing));
}
