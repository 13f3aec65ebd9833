//! What the `login`, `list`, `snapshots`, `snapshot` and `events` commands print.

use vstd::prelude::*;
use crate::db::{CrawlSnapshotRow, EventLogEntry, FeedItem};
use crate::decimal::{push_signed_decimal, signed_decimal_of};
use crate::scan::slice_chars;
use crate::text::{chars_of, push_chars, same_text};

verus! {

/// The login page of each supported site.
pub open spec fn login_page(site: Seq<char>) -> Option<Seq<char>> {
    if site == "reddit"@ {
        Some("https://www.reddit.com/login"@)
    } else if site == "zhihu"@ {
        Some("https://www.zhihu.com/signin"@)
    } else if site == "xueqiu"@ {
        Some("https://xueqiu.com/"@)
    } else if site == "x"@ {
        Some("https://x.com/i/flow/login"@)
    } else if site == "linkedin"@ {
        Some("https://www.linkedin.com/login"@)
    } else if site == "hackernews"@ {
        Some("https://news.ycombinator.com/login"@)
    } else if site == "1point3acres"@ {
        Some("https://www.1point3acres.com/bbs/member.php?mod=logging&action=login"@)
    } else if site == "wsj"@ {
        Some("https://accounts.wsj.com/login"@)
    } else if site == "nyt"@ {
        Some("https://myaccount.nytimes.com/auth/login"@)
    } else if site == "businessinsider"@ {
        Some("https://www.businessinsider.com/login"@)
    } else if site == "cls"@ {
        Some("https://www.cls.cn"@)
    } else if site == "peoplesdaily"@ {
        Some("https://paper.people.com.cn"@)
    } else if site == "latepost"@ {
        Some("https://www.latepost.com"@)
    } else {
        None
    }
}

/// The login page of a site, if it is supported.
pub fn login_url(site: &str) -> (r: Option<&'static str>)
    ensures
        match r {
            Some(u) => login_page(site@) == Some(u@),
            None => login_page(site@) is None,
        },
{
    if same_text(site, "reddit") {
        Some("https://www.reddit.com/login")
    } else if same_text(site, "zhihu") {
        Some("https://www.zhihu.com/signin")
    } else if same_text(site, "xueqiu") {
        Some("https://xueqiu.com/")
    } else if same_text(site, "x") {
        Some("https://x.com/i/flow/login")
    } else if same_text(site, "linkedin") {
        Some("https://www.linkedin.com/login")
    } else if same_text(site, "hackernews") {
        Some("https://news.ycombinator.com/login")
    } else if same_text(site, "1point3acres") {
        Some("https://www.1point3acres.com/bbs/member.php?mod=logging&action=login")
    } else if same_text(site, "wsj") {
        Some("https://accounts.wsj.com/login")
    } else if same_text(site, "nyt") {
        Some("https://myaccount.nytimes.com/auth/login")
    } else if same_text(site, "businessinsider") {
        Some("https://www.businessinsider.com/login")
    } else if same_text(site, "cls") {
        Some("https://www.cls.cn")
    } else if same_text(site, "peoplesdaily") {
        Some("https://paper.people.com.cn")
    } else if same_text(site, "latepost") {
        Some("https://www.latepost.com")
    } else {
        None
    }
}

/// The list of sites that have a login page, as the error for an unknown
/// site names them.
pub fn supported_login_sites() -> (r: &'static str)
    ensures
        r@ == "supported: reddit, zhihu, xueqiu, x, linkedin, hackernews, 1point3acres, wsj, nyt, businessinsider, cls, peoplesdaily, latepost"@,
{
    "supported: reddit, zhihu, xueqiu, x, linkedin, hackernews, 1point3acres, wsj, nyt, businessinsider, cls, peoplesdaily, latepost"
}

/// What `login` reports for a site without a login page: the site, then
/// the supported sites, one line each.
pub fn unknown_login_site(site: &str) -> (r: String)
    ensures
        r@ == "unknown site: "@ + site@ + "\n"@ + "supported: reddit, zhihu, xueqiu, x, linkedin, hackernews, 1point3acres, wsj, nyt, businessinsider, cls, peoplesdaily, latepost"@
            + "\n"@,
{
    let mut r = String::new();
    r.append("unknown site: ");
    r.append(site);
    r.append("\n");
    r.append(supported_login_sites());
    r.append("\n");
    r
}

/// Characters of preview the `list` command shows.
pub const LIST_PREVIEW_CHARS: usize = 60;

/// The preview as `list` shows it: longer than 60 characters, its first 60
/// followed by `...`.
pub open spec fn list_preview(p: Seq<char>) -> Seq<char> {
    if p.len() > LIST_PREVIEW_CHARS {
        p.take(LIST_PREVIEW_CHARS as int) + "..."@
    } else {
        p
    }
}

/// A line of the `list` command.
pub open spec fn list_line_text(item: FeedItem) -> Seq<char> {
    "["@ + item.site@ + "] "@ + item.title@ + " | "@ + item.url@ + " | "@ + list_preview(
        item.preview@,
    )
}

/// Formats a stored item for the `list` command.
pub fn list_line(item: &FeedItem) -> (r: String)
    ensures
        r@ == list_line_text(*item),
{
    let mut r = String::new();
    r.append("[");
    r.append(item.site.as_str());
    r.append("] ");
    r.append(item.title.as_str());
    r.append(" | ");
    r.append(item.url.as_str());
    r.append(" | ");
    let p = chars_of(item.preview.as_str());
    if p.len() > LIST_PREVIEW_CHARS {
        let head = slice_chars(&p, 0, LIST_PREVIEW_CHARS);
        push_chars(&mut r, &head);
        r.append("...");
        assert(head@ =~= item.preview@.take(LIST_PREVIEW_CHARS as int));
    } else {
        r.append(item.preview.as_str());
    }
    assert(r@ =~= list_line_text(*item));
    r
}

/// A line of the `snapshots` command.
pub open spec fn snapshot_line_text(s: CrawlSnapshotRow) -> Seq<char> {
    "["@ + s.crawled_at@ + "] #"@ + signed_decimal_of(s.id as int) + " | "@ + s.site@ + " | "@
        + signed_decimal_of(s.item_count as int) + " items"@
}

/// Formats a snapshot row for the `snapshots` command.
pub fn snapshot_line(s: &CrawlSnapshotRow) -> (r: String)
    ensures
        r@ == snapshot_line_text(*s),
{
    let mut r = String::new();
    r.append("[");
    r.append(s.crawled_at.as_str());
    r.append("] #");
    push_signed_decimal(&mut r, s.id as i64);
    r.append(" | ");
    r.append(s.site.as_str());
    r.append(" | ");
    push_signed_decimal(&mut r, s.item_count as i64);
    r.append(" items");
    assert(r@ =~= snapshot_line_text(*s));
    r
}

/// A line of the `events` command.
pub open spec fn event_line_text(e: EventLogEntry) -> Seq<char> {
    "["@ + e.created_at@ + "] "@ + e.event_type@ + " | "@ + e.site@ + " | "@ + e.details@
}

/// Formats an event for the `events` command.
pub fn event_line(e: &EventLogEntry) -> (r: String)
    ensures
        r@ == event_line_text(*e),
{
    let mut r = String::new();
    r.append("[");
    r.append(e.created_at.as_str());
    r.append("] ");
    r.append(e.event_type.as_str());
    r.append(" | ");
    r.append(e.site.as_str());
    r.append(" | ");
    r.append(e.details.as_str());
    assert(r@ =~= event_line_text(*e));
    r
}

// ---------------------------------------------------------------------------
// Whole listings
// ---------------------------------------------------------------------------

/// The views of a list of lines.
pub open spec fn lines_view(v: Seq<String>) -> Seq<Seq<char>> {
    v.map_values(|s: String| s@)
}

/// What `list` prints: a line per item, or a note when there is none.
pub open spec fn list_output_text(items: Seq<FeedItem>) -> Seq<Seq<char>> {
    if items.len() == 0 {
        seq!["no items found"@]
    } else {
        items.map_values(|i: FeedItem| list_line_text(i))
    }
}

/// The lines the `list` command prints for the items found.
pub fn list_output(items: &Vec<FeedItem>) -> (r: Vec<String>)
    ensures
        lines_view(r@) == list_output_text(items@),
{
    let mut r: Vec<String> = Vec::new();
    if items.len() == 0 {
        r.push("no items found".to_string());
        assert(lines_view(r@) =~= list_output_text(items@));
        return r;
    }
    let mut i: usize = 0;
    while i < items.len()
        invariant
            i <= items.len(),
            lines_view(r@) == items@.take(i as int).map_values(|x: FeedItem| list_line_text(x)),
        decreases items.len() - i,
    {
        let ghost before = r@;
        r.push(list_line(&items[i]));
        assert(lines_view(r@) =~= lines_view(before).push(list_line_text(items@[i as int])));
        assert(items@.take(i + 1).map_values(|x: FeedItem| list_line_text(x)) =~= items@.take(
            i as int,
        ).map_values(|x: FeedItem| list_line_text(x)).push(list_line_text(items@[i as int])));
        i = i + 1;
    }
    assert(items@.take(items.len() as int) =~= items@);
    r
}

/// What `snapshots` prints: a line per snapshot, or a note naming the site
/// when there is none.
pub open spec fn snapshots_output_text(site: Seq<char>, snaps: Seq<CrawlSnapshotRow>) -> Seq<
    Seq<char>,
> {
    if snaps.len() == 0 {
        seq!["no snapshots found for "@ + site]
    } else {
        snaps.map_values(|x: CrawlSnapshotRow| snapshot_line_text(x))
    }
}

/// The lines the `snapshots` command prints for the snapshots of `site`.
pub fn snapshots_output(site: &str, snaps: &Vec<CrawlSnapshotRow>) -> (r: Vec<String>)
    ensures
        lines_view(r@) == snapshots_output_text(site@, snaps@),
{
    let mut r: Vec<String> = Vec::new();
    if snaps.len() == 0 {
        let mut m = String::new();
        m.append("no snapshots found for ");
        m.append(site);
        r.push(m);
        assert(lines_view(r@) =~= snapshots_output_text(site@, snaps@));
        return r;
    }
    let mut i: usize = 0;
    while i < snaps.len()
        invariant
            i <= snaps.len(),
            lines_view(r@) == snaps@.take(i as int).map_values(
                |x: CrawlSnapshotRow| snapshot_line_text(x),
            ),
        decreases snaps.len() - i,
    {
        let ghost before = r@;
        r.push(snapshot_line(&snaps[i]));
        assert(lines_view(r@) =~= lines_view(before).push(snapshot_line_text(snaps@[i as int])));
        assert(snaps@.take(i + 1).map_values(|x: CrawlSnapshotRow| snapshot_line_text(x))
            =~= snaps@.take(i as int).map_values(|x: CrawlSnapshotRow| snapshot_line_text(x)).push(
            snapshot_line_text(snaps@[i as int]),
        ));
        i = i + 1;
    }
    assert(snaps@.take(snaps.len() as int) =~= snaps@);
    r
}

/// What `events` prints: a line per event, or a note when there is none.
pub open spec fn events_output_text(events: Seq<EventLogEntry>) -> Seq<Seq<char>> {
    if events.len() == 0 {
        seq!["no events found"@]
    } else {
        events.map_values(|e: EventLogEntry| event_line_text(e))
    }
}

/// The lines the `events` command prints for the events found.
pub fn events_output(events: &Vec<EventLogEntry>) -> (r: Vec<String>)
    ensures
        lines_view(r@) == events_output_text(events@),
{
    let mut r: Vec<String> = Vec::new();
    if events.len() == 0 {
        r.push("no events found".to_string());
        assert(lines_view(r@) =~= events_output_text(events@));
        return r;
    }
    let mut i: usize = 0;
    while i < events.len()
        invariant
            i <= events.len(),
            lines_view(r@) == events@.take(i as int).map_values(
                |e: EventLogEntry| event_line_text(e),
            ),
        decreases events.len() - i,
    {
        let ghost before = r@;
        r.push(event_line(&events[i]));
        assert(lines_view(r@) =~= lines_view(before).push(event_line_text(events@[i as int])));
        assert(events@.take(i + 1).map_values(|e: EventLogEntry| event_line_text(e))
            =~= events@.take(i as int).map_values(|e: EventLogEntry| event_line_text(e)).push(
            event_line_text(events@[i as int]),
        ));
        i = i + 1;
    }
    assert(events@.take(events.len() as int) =~= events@);
    r
}

/// The lines `snapshot` prints before a snapshot's items.
pub open spec fn snapshot_header_text(s: CrawlSnapshotRow) -> Seq<Seq<char>> {
    seq![
        "Snapshot #"@ + signed_decimal_of(s.id as int) + " | "@ + s.site@ + " | "@ + s.crawled_at@,
        "Items: "@ + signed_decimal_of(s.item_count as int),
        "---"@,
    ]
}

/// The header lines of the `snapshot` command.
pub fn snapshot_header(s: &CrawlSnapshotRow) -> (r: Vec<String>)
    ensures
        lines_view(r@) == snapshot_header_text(*s),
{
    let mut first = String::new();
    first.append("Snapshot #");
    push_signed_decimal(&mut first, s.id as i64);
    first.append(" | ");
    first.append(s.site.as_str());
    first.append(" | ");
    first.append(s.crawled_at.as_str());
    let mut second = String::new();
    second.append("Items: ");
    push_signed_decimal(&mut second, s.item_count as i64);
    let mut r: Vec<String> = Vec::new();
    r.push(first);
    r.push(second);
    r.push("---".to_string());
    assert(lines_view(r@) =~= snapshot_header_text(*s));
    r
}

/// What `snapshot` prints for an id that is not stored.
pub fn snapshot_not_found(id: i32) -> (r: String)
    ensures
        r@ == "snapshot #"@ + signed_decimal_of(id as int) + " not found"@,
{
    let mut r = String::new();
    r.append("snapshot #");
    push_signed_decimal(&mut r, id as i64);
    r.append(" not found");
    r
}

/// What `serde_json` writes with `to_string_pretty` for a text read with
/// `from_str` as a JSON value; `None` when the text is not JSON.
pub uninterp spec fn pretty_json_of(text: Seq<char>) -> Option<Seq<char>>;

/// Reads `text` with `serde_json::from_str::<serde_json::Value>` and writes
/// the value back with `serde_json::to_string_pretty`. Claimed: the result
/// is `pretty_json_of(text@)`; nothing more is said of its layout.
#[verifier::external_body]
fn pretty_json(text: &str) -> (r: Option<String>)
    ensures
        match r {
            Some(p) => pretty_json_of(text@) == Some(p@),
            None => pretty_json_of(text@) is None,
        },
{
    let v: serde_json::Value = serde_json::from_str(text).ok()?;
    serde_json::to_string_pretty(&v).ok()
}

/// What `snapshot` prints after the header: the stored items JSON
/// pretty-printed, or as stored when it does not read as JSON.
pub fn snapshot_body(items_json: &str) -> (r: String)
    ensures
        r@ == (match pretty_json_of(items_json@) {
            Some(p) => p,
            None => items_json@,
        }),
{
    match pretty_json(items_json) {
        Some(p) => p,
        None => {
            let mut r = String::new();
            r.append(items_json);
            r
        },
    }
}

/// The sites `login` supports, as its error message lists them, each with
/// the page it opens.
pub open spec fn login_table() -> Seq<(Seq<char>, Seq<char>)> {
    seq![
        ("reddit"@, "https://www.reddit.com/login"@),
        ("zhihu"@, "https://www.zhihu.com/signin"@),
        ("xueqiu"@, "https://xueqiu.com/"@),
        ("x"@, "https://x.com/i/flow/login"@),
        ("linkedin"@, "https://www.linkedin.com/login"@),
        ("hackernews"@, "https://news.ycombinator.com/login"@),
        ("1point3acres"@, "https://www.1point3acres.com/bbs/member.php?mod=logging&action=login"@),
        ("wsj"@, "https://accounts.wsj.com/login"@),
        ("nyt"@, "https://myaccount.nytimes.com/auth/login"@),
        ("businessinsider"@, "https://www.businessinsider.com/login"@),
        ("cls"@, "https://www.cls.cn"@),
        ("peoplesdaily"@, "https://paper.people.com.cn"@),
        ("latepost"@, "https://www.latepost.com"@),
    ]
}

/// `login` opens, for each supported site, that site's login page, and
/// knows no other site. The sites are those the error message for an
/// unknown site lists, in its order.
pub proof fn lemma_login_pages(site: Seq<char>)
    ensures
        forall|i: int| 0 <= i < login_table().len() ==> login_page(#[trigger] login_table()[i].0)
            == Some(login_table()[i].1),
        login_page(site) is Some ==> exists|i: int|
            0 <= i < login_table().len() && #[trigger] login_table()[i].0 == site,
        "supported: "@ + login_table()[0].0 + ", "@ + login_table()[1].0 + ", "@
            + login_table()[2].0 + ", "@ + login_table()[3].0 + ", "@ + login_table()[4].0
            + ", "@ + login_table()[5].0 + ", "@ + login_table()[6].0 + ", "@
            + login_table()[7].0 + ", "@ + login_table()[8].0 + ", "@ + login_table()[9].0
            + ", "@ + login_table()[10].0 + ", "@ + login_table()[11].0 + ", "@
            + login_table()[12].0 == "supported: reddit, zhihu, xueqiu, x, linkedin, hackernews, 1point3acres, wsj, nyt, businessinsider, cls, peoplesdaily, latepost"@,
{
    let t = login_table();
    reveal_strlit("reddit");
    reveal_strlit("zhihu");
    reveal_strlit("xueqiu");
    reveal_strlit("x");
    reveal_strlit("linkedin");
    reveal_strlit("hackernews");
    reveal_strlit("1point3acres");
    reveal_strlit("wsj");
    reveal_strlit("nyt");
    reveal_strlit("businessinsider");
    reveal_strlit("cls");
    reveal_strlit("peoplesdaily");
    reveal_strlit("latepost");
    reveal_strlit("supported: ");
    reveal_strlit(", ");
    reveal_strlit("supported: reddit, zhihu, xueqiu, x, linkedin, hackernews, 1point3acres, wsj, nyt, businessinsider, cls, peoplesdaily, latepost");
    assert forall|i: int| 0 <= i < t.len() implies login_page(#[trigger] t[i].0) == Some(t[i].1) by {
        if i == 0 {
        } else if i == 1 {
            assert(t[i].0 != "reddit"@) by { assert(t[i].0[0] != 'r'); }
        } else if i == 2 {
            assert(t[i].0[0] == 'x' && t[i].0.len() == 6);
        } else if i == 3 {
            assert(t[i].0.len() == 1);
        } else if i == 4 {
            assert(t[i].0[0] == 'l' && t[i].0.len() == 8);
        } else if i == 5 {
            assert(t[i].0[0] == 'h');
        } else if i == 6 {
            assert(t[i].0[0] == '1');
        } else if i == 7 {
            assert(t[i].0[0] == 'w');
        } else if i == 8 {
            assert(t[i].0[0] == 'n');
        } else if i == 9 {
            assert(t[i].0[0] == 'b');
        } else if i == 10 {
            assert(t[i].0[0] == 'c');
        } else if i == 11 {
            assert(t[i].0[0] == 'p');
        } else {
            assert(t[i].0[0] == 'l' && t[i].0.len() == 8 && t[i].0[1] == 'a');
        }
    }
    if login_page(site) is Some {
        if site == "reddit"@ {
            assert(t[0].0 == site);
        } else if site == "zhihu"@ {
            assert(t[1].0 == site);
        } else if site == "xueqiu"@ {
            assert(t[2].0 == site);
        } else if site == "x"@ {
            assert(t[3].0 == site);
        } else if site == "linkedin"@ {
            assert(t[4].0 == site);
        } else if site == "hackernews"@ {
            assert(t[5].0 == site);
        } else if site == "1point3acres"@ {
            assert(t[6].0 == site);
        } else if site == "wsj"@ {
            assert(t[7].0 == site);
        } else if site == "nyt"@ {
            assert(t[8].0 == site);
        } else if site == "businessinsider"@ {
            assert(t[9].0 == site);
        } else if site == "cls"@ {
            assert(t[10].0 == site);
        } else if site == "peoplesdaily"@ {
            assert(t[11].0 == site);
        } else {
            assert(t[12].0 == site);
        }
    }
    assert("supported: "@ + t[0].0 + ", "@ + t[1].0 + ", "@ + t[2].0 + ", "@ + t[3].0 + ", "@
        + t[4].0 + ", "@ + t[5].0 + ", "@ + t[6].0 + ", "@ + t[7].0 + ", "@ + t[8].0 + ", "@
        + t[9].0 + ", "@ + t[10].0 + ", "@ + t[11].0 + ", "@ + t[12].0 =~= "supported: reddit, zhihu, xueqiu, x, linkedin, hackernews, 1point3acres, wsj, nyt, businessinsider, cls, peoplesdaily, latepost"@);
}

} // verus!
