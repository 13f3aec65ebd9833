use myfeed::config::{Config, ConfigError, DedupOverrides, RawSettings};

fn test_config(keywords: Vec<&str>) -> Config {
    Config {
        cdp_endpoint: String::new(),
        database_url: String::new(),
        telegram_bot_token: String::new(),
        telegram_chat_id: String::new(),
        crawl_interval_secs: 1800,
        enabled_sites: vec![],
        feed_output_path: None,
        feed_item_count: 100,
        filter_keywords: keywords.into_iter().map(|s| s.to_string()).collect(),
        digest_mode: false,
        dedup_window_hours: 0,
        dedup_overrides: DedupOverrides::new(),
    }
}

#[test]
fn filter_empty_keywords_passes_everything() {
    let config = test_config(vec![]);
    assert!(config.matches_filter("anything", "at all"));
}

#[test]
fn filter_matches_title() {
    let config = test_config(vec!["rust", "ai"]);
    assert!(config.matches_filter("Learning Rust in 2026", ""));
    assert!(config.matches_filter("AI is changing everything", ""));
    assert!(!config.matches_filter("Python tutorial", "web dev"));
}

#[test]
fn filter_matches_preview() {
    let config = test_config(vec!["tariff"]);
    assert!(config.matches_filter("Trade news", "New tariff on imports"));
    assert!(!config.matches_filter("Trade news", "Exports rise"));
}

#[test]
fn filter_case_insensitive() {
    let config = test_config(vec!["rust"]);
    assert!(config.matches_filter("RUST 2026", ""));
    assert!(config.matches_filter("Rust Foundation", ""));
    assert!(config.matches_filter("rust-lang", ""));
}

#[test]
fn dedup_window_default() {
    let config = test_config(vec![]);
    assert_eq!(config.dedup_window_for("reddit"), 0);
}

#[test]
fn dedup_window_override() {
    let mut config = test_config(vec![]);
    config.dedup_window_hours = 0;
    config.dedup_overrides.insert("weibo-hot".to_string(), 24);
    config
        .dedup_overrides
        .insert("github-trending".to_string(), 48);
    assert_eq!(config.dedup_window_for("weibo-hot"), 24);
    assert_eq!(config.dedup_window_for("github-trending"), 48);
    assert_eq!(config.dedup_window_for("reddit"), 0);
}

#[test]
fn dedup_override_later_value_wins() {
    let mut overrides = DedupOverrides::new();
    overrides.insert("reddit".to_string(), 5);
    overrides.insert("reddit".to_string(), 7);
    assert_eq!(overrides.get("reddit"), Some(7));
    assert_eq!(overrides.get("zhihu"), None);
}

fn full_settings() -> RawSettings {
    RawSettings {
        cdp_endpoint: Some("http://localhost:9222".to_string()),
        database_url: Some("myfeed.db".to_string()),
        telegram_bot_token: Some("token".to_string()),
        telegram_chat_id: Some("chat".to_string()),
        crawl_interval_secs: Some("1800".to_string()),
        enabled_sites: Some(" Reddit, hackernews ,,ZHIHU ".to_string()),
        feed_output_path: None,
        feed_item_count: None,
        filter_keywords: None,
        digest_mode: None,
        dedup_window_hours: None,
        dedup_overrides: None,
    }
}

#[test]
fn settings_parse_lists_and_defaults() {
    let config = Config::from_settings(full_settings()).unwrap();
    assert_eq!(config.crawl_interval_secs, 1800);
    assert_eq!(config.enabled_sites, vec!["reddit", "hackernews", "zhihu"]);
    assert_eq!(config.feed_output_path, None);
    assert_eq!(config.feed_item_count, 100);
    assert!(config.filter_keywords.is_empty());
    assert!(!config.digest_mode);
    assert_eq!(config.dedup_window_hours, 0);
    assert_eq!(config.dedup_window_for("reddit"), 0);
}

#[test]
fn settings_parse_optional_values() {
    let mut raw = full_settings();
    raw.feed_output_path = Some(String::new());
    raw.feed_item_count = Some("-5".to_string());
    raw.filter_keywords = Some("Rust, AI ,".to_string());
    raw.digest_mode = Some("1".to_string());
    raw.dedup_window_hours = Some("+12".to_string());
    raw.dedup_overrides = Some(" Weibo-Hot : 24 , bad, x:notanumber, github-trending:48".to_string());
    let config = Config::from_settings(raw).unwrap();
    assert_eq!(config.feed_output_path, None);
    assert_eq!(config.feed_item_count, -5);
    assert_eq!(config.filter_keywords, vec!["rust", "ai"]);
    assert!(config.digest_mode);
    assert_eq!(config.dedup_window_hours, 12);
    assert_eq!(config.dedup_window_for("weibo-hot"), 24);
    assert_eq!(config.dedup_window_for("github-trending"), 48);
    assert_eq!(config.dedup_window_for("x"), 12);
}

#[test]
fn settings_bad_numbers_fall_back() {
    let mut raw = full_settings();
    raw.feed_item_count = Some("lots".to_string());
    raw.dedup_window_hours = Some("-1".to_string());
    raw.digest_mode = Some("yes".to_string());
    raw.feed_output_path = Some("feed.xml".to_string());
    let config = Config::from_settings(raw).unwrap();
    assert_eq!(config.feed_item_count, 100);
    assert_eq!(config.dedup_window_hours, 0);
    assert!(!config.digest_mode);
    assert_eq!(config.feed_output_path, Some("feed.xml".to_string()));
}

#[test]
fn settings_missing_required() {
    let mut raw = full_settings();
    raw.database_url = None;
    raw.enabled_sites = None;
    let err = Config::from_settings(raw).unwrap_err();
    assert_eq!(err, ConfigError::Missing("DATABASE_URL".to_string()));
    assert_eq!(err.message(), "missing required env var: DATABASE_URL");

    let mut raw = full_settings();
    raw.enabled_sites = None;
    assert_eq!(
        Config::from_settings(raw).unwrap_err(),
        ConfigError::Missing("ENABLED_SITES".to_string())
    );
}

#[test]
fn settings_bad_interval() {
    let mut raw = full_settings();
    raw.crawl_interval_secs = Some("30m".to_string());
    let err = Config::from_settings(raw).unwrap_err();
    assert_eq!(err, ConfigError::BadInterval);
    assert_eq!(err.message(), "CRAWL_INTERVAL_SECS must be a positive integer");
}

#[test]
fn telegram_configured_needs_both() {
    let mut config = test_config(vec![]);
    assert!(!config.telegram_configured());
    config.telegram_bot_token = "t".to_string();
    assert!(!config.telegram_configured());
    config.telegram_chat_id = "c".to_string();
    assert!(config.telegram_configured());
}
