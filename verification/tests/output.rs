use myfeed::cli::crawl::{
    item_fields, new_items, recipe_params, select_output, site_data_fields, table_line, OutputFormat,
};
use myfeed::cli::dump::{detail_fields, dump_mode, index_fields, site_counts};
use myfeed::cli::recipe::{recipe_not_found, recipe_site_of, recipe_sites, validation_result};
use myfeed::cli::show::{
    event_line, events_output, list_line, list_output, login_url, snapshot_header, snapshot_line,
    snapshot_body, snapshot_not_found, snapshots_output, unknown_login_site,
};
use myfeed::db::{CrawlSnapshotRow, EventLogEntry, FeedItem};
use myfeed::notifier::StdoutNotifier;
use myfeed::output::{OutScalar, OutValue};
use myfeed::proto::feed_item::SiteData;
use myfeed::proto::{FeedItem as CrawledItem, HackerNewsData};
use myfeed::scan::{split_chars, split_first, trim};

fn stored(id: i32, site: &str, preview: &str) -> FeedItem {
    FeedItem {
        id,
        site: site.to_string(),
        external_id: format!("e{id}"),
        title: "Title".to_string(),
        url: "https://u.example".to_string(),
        preview: preview.to_string(),
        raw_json: "{\"a\":1}".to_string(),
        created_at: "2026-04-05 10:00:00".to_string(),
    }
}

fn crawled(id: &str, preview: &str, site_data: Option<SiteData>) -> CrawledItem {
    CrawledItem {
        id: id.to_string(),
        title: format!("T{id}"),
        url: format!("https://x.example/{id}"),
        preview: preview.to_string(),
        site_data,
    }
}

fn text(v: &str) -> OutValue {
    OutValue::Scalar(OutScalar::Text(v.to_string()))
}

#[test]
fn list_line_shortens_long_previews() {
    assert_eq!(
        list_line(&stored(1, "hn", "short")),
        "[hn] Title | https://u.example | short"
    );
    let long: String = "é".repeat(61);
    let expected = format!("[hn] Title | https://u.example | {}...", "é".repeat(60));
    assert_eq!(list_line(&stored(1, "hn", &long)), expected);
    assert_eq!(
        list_line(&stored(1, "hn", &"a".repeat(60))),
        format!("[hn] Title | https://u.example | {}", "a".repeat(60))
    );
}

#[test]
fn snapshot_and_event_lines() {
    let s = CrawlSnapshotRow {
        id: 7,
        site: "reddit".to_string(),
        crawled_at: "2026-04-05 10:00:00".to_string(),
        item_count: 25,
        items_json: "[]".to_string(),
    };
    assert_eq!(snapshot_line(&s), "[2026-04-05 10:00:00] #7 | reddit | 25 items");
    let e = EventLogEntry {
        id: 3,
        event_type: "crawl_error".to_string(),
        site: "x".to_string(),
        details: "{\"error\":\"boom\"}".to_string(),
        created_at: "2026-04-05 11:00:00".to_string(),
    };
    assert_eq!(
        event_line(&e),
        "[2026-04-05 11:00:00] crawl_error | x | {\"error\":\"boom\"}"
    );
}

#[test]
fn table_line_cuts_preview_at_fifty_bytes() {
    let item = crawled("1", &"b".repeat(51), None);
    assert_eq!(
        table_line("hn", &item),
        format!("[hn] T1 | https://x.example/1 | {}...", "b".repeat(50))
    );
    let item = crawled("2", &"b".repeat(50), None);
    assert_eq!(
        table_line("hn", &item),
        format!("[hn] T2 | https://x.example/2 | {}", "b".repeat(50))
    );
}

#[test]
fn output_format_names() {
    assert_eq!(OutputFormat::parse("json"), Ok(OutputFormat::Json));
    assert_eq!(OutputFormat::parse("JSONL"), Ok(OutputFormat::Jsonl));
    assert_eq!(OutputFormat::parse("Table"), Ok(OutputFormat::Table));
    assert_eq!(OutputFormat::parse("xml"), Err("unknown format: xml".to_string()));
    assert_eq!(OutputFormat::default(), OutputFormat::Json);
}

#[test]
fn recipe_params_keep_param_keys() {
    let ps = vec![
        ("param.q".to_string(), "rust".to_string()),
        ("other".to_string(), "x".to_string()),
        ("param.param.n".to_string(), "5".to_string()),
    ];
    assert_eq!(
        recipe_params(&ps),
        vec![("q".to_string(), "rust".to_string()), ("n".to_string(), "5".to_string())]
    );
}

#[test]
fn select_output_applies_limit_across_sites() {
    let results = vec![
        ("hn".to_string(), vec![crawled("1", "", None), crawled("2", "", None)]),
        ("reddit".to_string(), vec![crawled("3", "", None)]),
    ];
    let all = select_output(&results, None);
    let ids: Vec<(String, String)> = all.iter().map(|(s, i)| (s.clone(), i.id.clone())).collect();
    assert_eq!(
        ids,
        vec![
            ("hn".to_string(), "1".to_string()),
            ("hn".to_string(), "2".to_string()),
            ("reddit".to_string(), "3".to_string())
        ]
    );
    let two = select_output(&results, Some(2));
    assert_eq!(two.len(), 2);
    assert_eq!(two[1].1.id, "2");
}

#[test]
fn item_fields_full_and_compact() {
    let hn = SiteData::Hackernews(HackerNewsData {
        score: 120,
        comments: 45,
        age: "3 hours ago".to_string(),
        site_url: "https://news.ycombinator.com".to_string(),
    });
    let item = crawled("9", "pv", Some(hn));
    let compact = item_fields("hackernews", &item, true);
    assert_eq!(
        compact,
        vec![
            ("id".to_string(), text("9")),
            ("site".to_string(), text("hackernews")),
            ("title".to_string(), text("T9")),
            ("url".to_string(), text("https://x.example/9")),
        ]
    );
    let full = item_fields("hackernews", &item, false);
    assert_eq!(full.len(), 6);
    assert_eq!(full[4], ("preview".to_string(), text("pv")));
    assert_eq!(
        full[5],
        (
            "site_data".to_string(),
            OutValue::Object(vec![
                ("score".to_string(), OutScalar::Int(120)),
                ("comments".to_string(), OutScalar::Int(45)),
                ("age".to_string(), OutScalar::Text("3 hours ago".to_string())),
            ])
        )
    );
    if let Some(sd) = &item.site_data {
        assert_eq!(site_data_fields(sd).len(), 3);
    }
}

#[test]
fn dump_fields_and_mode() {
    assert_eq!(dump_mode(true, true), "detail");
    assert_eq!(dump_mode(false, true), "index");
    assert_eq!(dump_mode(false, false), "full");
    let item = stored(4, "hn", "pv");
    let idx = index_fields(&item, true);
    assert_eq!(idx.len(), 4);
    assert_eq!(idx[0], ("id".to_string(), OutValue::Scalar(OutScalar::Int(4))));
    let full = index_fields(&item, false);
    assert_eq!(full[4], ("preview".to_string(), text("pv")));
    assert_eq!(full[5], ("created_at".to_string(), text("2026-04-05 10:00:00")));
    let detail = detail_fields(&item);
    assert_eq!(detail.len(), 7);
    assert_eq!(detail[5], ("raw_json".to_string(), text("{\"a\":1}")));
}

#[test]
fn site_counts_in_order_of_first_appearance() {
    let items = vec![stored(1, "hn", ""), stored(2, "reddit", ""), stored(3, "hn", "")];
    assert_eq!(
        site_counts(&items),
        vec![("hn".to_string(), 2), ("reddit".to_string(), 1)]
    );
    assert_eq!(site_counts(&vec![]), vec![]);
}

#[test]
fn recipe_listing_sorted_unique() {
    let names: Vec<String> = ["reddit-feed.yaml", "hackernews-feed.yaml", "notes.txt", "reddit-feed.yaml", "x-feed-feed.yaml"]
        .iter()
        .map(|s| s.to_string())
        .collect();
    assert_eq!(recipe_sites(&names), vec!["hackernews", "reddit", "x"]);
    assert_eq!(recipe_site_of("zhihu-feed.yaml"), Some("zhihu".chars().collect()));
    assert_eq!(recipe_site_of("zhihu.yaml"), None);
}

#[test]
fn recipe_validation_messages() {
    assert_eq!(recipe_not_found("nope"), "recipe not found for site: nope");
    assert_eq!(
        validation_result(true, Some("bad step".to_string())),
        Err("recipe error: bad step".to_string())
    );
    assert_eq!(validation_result(true, None), Ok(()));
    assert_eq!(validation_result(false, Some("ignored".to_string())), Ok(()));
}

#[test]
fn login_sites() {
    assert!(login_url("reddit").is_some());
    assert!(login_url("myspace").is_none());
    assert!(unknown_login_site("myspace").starts_with("unknown site: myspace\n"));
}

#[test]
fn stdout_notifier_lines() {
    let n = StdoutNotifier;
    assert_eq!(n.feed_item_line("hn", "T", "https://u", "p"), "[hn] T | https://u | p");
    assert_eq!(n.feed_item_line("hn", "T", "", "p"), "[hn] T | p");
    assert_eq!(n.message_line("hello"), "hello");
}

#[test]
fn scanning_text() {
    let cs: Vec<char> = "  a, b ,,c \t".chars().collect();
    assert_eq!(trim(&cs), "a, b ,,c".chars().collect::<Vec<char>>());
    let parts: Vec<String> = split_chars(&"a,,b".chars().collect(), ',')
        .into_iter()
        .map(|p| p.into_iter().collect())
        .collect();
    assert_eq!(parts, vec!["a", "", "b"]);
    let kv = split_first(&"k=v=w".chars().collect(), '=').unwrap();
    assert_eq!(kv.0.into_iter().collect::<String>(), "k");
    assert_eq!(kv.1.into_iter().collect::<String>(), "v=w");
    assert!(split_first(&"kv".chars().collect(), '=').is_none());
}

#[test]
fn listings_with_and_without_rows() {
    assert_eq!(list_output(&vec![]), vec!["no items found".to_string()]);
    assert_eq!(
        list_output(&vec![stored(1, "hn", "p"), stored(2, "x", "q")]),
        vec![
            "[hn] Title | https://u.example | p".to_string(),
            "[x] Title | https://u.example | q".to_string()
        ]
    );
    assert_eq!(events_output(&vec![]), vec!["no events found".to_string()]);
    assert_eq!(
        snapshots_output("reddit", &vec![]),
        vec!["no snapshots found for reddit".to_string()]
    );
    let s = CrawlSnapshotRow {
        id: -2,
        site: "hn".to_string(),
        crawled_at: "2026-04-05".to_string(),
        item_count: 0,
        items_json: "[]".to_string(),
    };
    assert_eq!(snapshots_output("hn", &vec![s.clone()]), vec!["[2026-04-05] #-2 | hn | 0 items".to_string()]);
    assert_eq!(
        snapshot_header(&s),
        vec!["Snapshot #-2 | hn | 2026-04-05".to_string(), "Items: 0".to_string(), "---".to_string()]
    );
    assert_eq!(snapshot_not_found(42), "snapshot #42 not found");
}

#[test]
fn snapshot_body_pretty_or_raw() {
    assert_eq!(snapshot_body("[1,{\"a\":2}]"), "[\n  1,\n  {\n    \"a\": 2\n  }\n]");
    assert_eq!(snapshot_body("not json"), "not json");
    assert_eq!(snapshot_body("[]"), "[]");
}

#[test]
fn notify_sends_only_new_items() {
    let items = vec![crawled("1", "", None), crawled("2", "", None), crawled("3", "", None)];
    let picked = new_items(&items, &vec![true, false, true]);
    let ids: Vec<String> = picked.iter().map(|i| i.id.clone()).collect();
    assert_eq!(ids, vec!["1".to_string(), "3".to_string()]);
    assert!(new_items(&items, &vec![false, false, false]).is_empty());
}

#[test]
fn white_space_is_std_white_space() {
    for u in 0u32..=0x10FFFF {
        if let Some(c) = char::from_u32(u) {
            assert_eq!(trim(&vec![c]).is_empty(), c.is_whitespace(), "U+{u:04X}");
        }
    }
    assert_eq!(trim(&" \u{3000}a\u{2028} ".chars().collect()), vec!['a']);
}
