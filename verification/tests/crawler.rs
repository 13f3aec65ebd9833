use myfeed::crawler::{
    int_field, items_from_outputs, recipe_file_name, recipe_result, str_field, value_to_feed_item,
    CrawlError,
};
use myfeed::json::{parse_items, JsonItem};
use myfeed::proto::feed_item::SiteData;

fn one(text: &str) -> JsonItem {
    parse_items(text).expect("valid JSON array").remove(0)
}

#[test]
fn str_field_extracts_string() {
    let v = one(r#"[{"name": "hello", "count": 42}]"#);
    assert_eq!(str_field(&v, "name"), "hello");
    assert_eq!(str_field(&v, "missing"), "");
    assert_eq!(str_field(&v, "count"), ""); // not a string
}

#[test]
fn int_field_extracts_number() {
    let v = one(r#"[{"score": 142, "name": "test"}]"#);
    assert_eq!(int_field(&v, "score"), 142);
    assert_eq!(int_field(&v, "missing"), 0);
    assert_eq!(int_field(&v, "name"), 0); // not a number
}

#[test]
fn int_field_truncates_to_32_bits() {
    let v = one(r#"[{"big": 4294967297, "neg": -3, "float": 1.5}]"#);
    assert_eq!(int_field(&v, "big"), 1);
    assert_eq!(int_field(&v, "neg"), -3);
    assert_eq!(int_field(&v, "float"), 0);
}

#[test]
fn value_to_feed_item_hackernews() {
    let v = one(
        r#"[{
            "id": "123",
            "title": "Test Story",
            "url": "https://example.com",
            "preview": "Some preview",
            "score": 200,
            "comments": 50,
            "age": "3 hours ago",
            "site_url": "https://news.ycombinator.com/item?id=123"
        }]"#,
    );
    let item = value_to_feed_item("hackernews", &v).unwrap();
    assert_eq!(item.id, "123");
    assert_eq!(item.title, "Test Story");
    assert!(item.site_data.is_some());
    match item.site_data.unwrap() {
        SiteData::Hackernews(hn) => {
            assert_eq!(hn.score, 200);
            assert_eq!(hn.comments, 50);
        }
        _ => panic!("expected HackerNewsData"),
    }
}

#[test]
fn value_to_feed_item_unknown_site_still_works() {
    let v = one(
        r#"[{
            "id": "1",
            "title": "Test",
            "url": "https://example.com",
            "preview": ""
        }]"#,
    );
    let item = value_to_feed_item("unknownsite", &v).unwrap();
    assert_eq!(item.id, "1");
    assert!(item.site_data.is_none());
}

#[test]
fn value_to_feed_item_missing_id_returns_none() {
    let v = one(r#"[{"title": "no id"}]"#);
    assert!(value_to_feed_item("hackernews", &v).is_none());
}

#[test]
fn value_to_feed_item_reddit_and_x() {
    let v = one(r#"[{"id": "a", "title": "t", "subreddit": "r/rust", "upvotes": 3, "author": "me"}]"#);
    match value_to_feed_item("reddit", &v).unwrap().site_data.unwrap() {
        SiteData::Reddit(r) => {
            assert_eq!(r.subreddit, "r/rust");
            assert_eq!(r.upvotes, 3);
            assert_eq!(r.comments, 0);
            assert_eq!(r.author, "me");
        }
        _ => panic!("expected RedditData"),
    }
    let v = one(r#"[{"id": "b", "title": "t", "retweets": 4, "datetime": "now"}]"#);
    match value_to_feed_item("x", &v).unwrap().site_data.unwrap() {
        SiteData::X(x) => {
            assert_eq!(x.retweets, 4);
            assert_eq!(x.datetime, "now");
            assert_eq!(x.author, "");
        }
        _ => panic!("expected XData"),
    }
}

#[test]
fn parse_items_rejects_non_arrays() {
    assert!(parse_items("not json").is_none());
    assert!(parse_items(r#"{"id": "1"}"#).is_none());
    assert_eq!(parse_items("[]").unwrap().len(), 0);
}

#[test]
fn items_from_outputs_collects_identified_items() {
    let outputs = vec![
        vec![(
            "items".to_string(),
            r#"[{"id": "1", "title": "A"}, {"title": "no id"}, 5, {"id": "2", "title": "B", "url": "u"}]"#
                .to_string(),
        )],
        vec![("other".to_string(), "x".to_string())],
        vec![("items".to_string(), "not json".to_string())],
        vec![("items".to_string(), r#"[{"id": "3", "title": "C"}]"#.to_string())],
    ];
    let items = items_from_outputs("zhihu", &outputs);
    let ids: Vec<&str> = items.iter().map(|i| i.id.as_str()).collect();
    assert_eq!(ids, vec!["1", "2", "3"]);
    assert_eq!(items[1].url, "u");
    assert!(matches!(items[0].site_data, Some(SiteData::Zhihu(_))));
}

#[test]
fn recipe_result_reports_execution_errors() {
    let err = recipe_result("hn", true, None, &vec![]).unwrap_err();
    assert!(matches!(&err, CrawlError::Execute(m) if m == "unknown error"));
    assert_eq!(err.describe(), "recipe execution error: unknown error");
    let err = recipe_result("hn", true, Some("boom".to_string()), &vec![]).unwrap_err();
    assert_eq!(err.describe(), "recipe execution error: boom");
    assert_eq!(
        CrawlError::Parse("bad yaml".to_string()).describe(),
        "recipe parse error: bad yaml"
    );
    assert!(recipe_result("hn", false, None, &vec![]).unwrap().is_empty());
}

#[test]
fn recipe_file_name_uses_site_name() {
    assert_eq!(recipe_file_name("hackernews"), "hackernews-feed.yaml");
}
