use myfeed::db::FeedItem;
use myfeed::feed::{escape_xml, generate_atom};
use myfeed::telegram::escape_html;

#[test]
fn empty_feed() {
    let xml = generate_atom(&[]);
    assert!(xml.contains("<feed"));
    assert!(xml.contains("</feed>"));
    assert!(xml.contains("<title>myfeed</title>"));
}

#[test]
fn escapes_xml_special_chars() {
    let items = vec![FeedItem {
        id: 1,
        site: "test".to_string(),
        external_id: "1".to_string(),
        title: "Title with <html> & \"quotes\"".to_string(),
        url: "https://example.com?a=1&b=2".to_string(),
        preview: "Content with <tags>".to_string(),
        raw_json: "{}".to_string(),
        created_at: "2026-03-23T00:00:00Z".to_string(),
    }];
    let xml = generate_atom(&items);
    assert!(xml.contains("&lt;html&gt;"));
    assert!(xml.contains("&amp;"));
    assert!(xml.contains("&quot;quotes&quot;"));
    assert!(!xml.contains("<html>"));
}

#[test]
fn empty_feed_exact_document() {
    assert_eq!(
        generate_atom(&[]),
        "<?xml version=\"1.0\" encoding=\"utf-8\"?>\n\
         <feed xmlns=\"http://www.w3.org/2005/Atom\">\n  \
         <title>myfeed</title>\n  <id>urn:myfeed</id>\n  \
         <updated>1970-01-01T00:00:00Z</updated>\n</feed>\n"
    );
}

#[test]
fn feed_entry_exact() {
    let items = vec![FeedItem {
        id: 7,
        site: "hn".to_string(),
        external_id: "42".to_string(),
        title: "T".to_string(),
        url: "u".to_string(),
        preview: "p".to_string(),
        raw_json: "{}".to_string(),
        created_at: "2026-01-01T00:00:00Z".to_string(),
    }];
    let xml = generate_atom(&items);
    assert!(xml.contains("  <updated>2026-01-01T00:00:00Z</updated>\n"));
    assert!(xml.contains(
        "  <entry>\n    <title>[hn] T</title>\n    <link href=\"u\" />\n    <id>hn:42</id>\n    \
         <published>2026-01-01T00:00:00Z</published>\n    \
         <updated>2026-01-01T00:00:00Z</updated>\n    <content type=\"text\">p</content>\n    \
         <category term=\"hn\" />\n  </entry>\n"
    ));
    assert_eq!(xml.matches("<entry>").count(), 1);
    assert_eq!(xml.matches("    <updated>").count(), 1);
}

#[test]
fn escape_xml_quotes() {
    assert_eq!(escape_xml("a\"b<c>&"), "a&quot;b&lt;c&gt;&amp;");
}

#[test]
fn escape_xml_is_escape_html_plus_quote() {
    for s in ["", "plain", "a & b", "<q a=\"1\">", "\"&quot;\"", "&amp;<>"] {
        assert_eq!(escape_xml(s), escape_html(s).replace('"', "&quot;"));
    }
}

#[test]
fn escaped_text_reads_back() {
    let unescape = |t: &str, quotes: bool| {
        let mut out = String::new();
        let mut rest = t;
        while let Some(c) = rest.chars().next() {
            let ents: [(&str, char); 4] = [("&amp;", '&'), ("&lt;", '<'), ("&gt;", '>'), ("&quot;", '"')];
            match ents.iter().take(if quotes { 4 } else { 3 }).find(|(e, _)| rest.starts_with(e)) {
                Some((e, ch)) => {
                    out.push(*ch);
                    rest = &rest[e.len()..];
                }
                None => {
                    out.push(c);
                    rest = &rest[c.len_utf8()..];
                }
            }
        }
        out
    };
    for s in ["", "a&lt;b", "<&>\"", "&amp;amp;", "é&\""] {
        assert_eq!(unescape(&escape_xml(s), true), s);
        assert_eq!(unescape(&escape_html(s), false), s);
    }
}
