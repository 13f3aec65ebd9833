//! `myfeed crawl`: its output format, recipe parameters, the items it
//! shows, and how each item is printed.

use vstd::prelude::*;
use crate::output::{
    fields_view, int_entry, scalar_fields_view, text_entry, text_field, OutScalar, OutScalarV,
    OutValue, OutValueV,
};
use crate::proto::feed_item::SiteData;
use crate::proto::FeedItem;
use crate::scan::{has_prefix, starts_with, strip_all_prefixes, strip_prefixes};
use crate::text::{chars_of, lowercase_of, push_char, same_text, string_of, to_lowercase};

verus! {

/// Output format for crawl results.
#[derive(Debug, Clone, Copy, PartialEq, Eq, Structural)]
pub enum OutputFormat {
    Json,
    Jsonl,
    Table,
}

impl Default for OutputFormat {
    fn default() -> (r: Self)
        ensures
            r == OutputFormat::Json,
    {
        OutputFormat::Json
    }
}

impl OutputFormat {
    /// Reads a format name, ignoring case: `json`, `jsonl` or `table`.
    pub fn parse(s: &str) -> (r: Result<OutputFormat, String>)
        ensures
            lowercase_of(s@) == "json"@ ==> r == Ok::<OutputFormat, String>(OutputFormat::Json),
            lowercase_of(s@) == "jsonl"@ ==> r == Ok::<OutputFormat, String>(OutputFormat::Jsonl),
            lowercase_of(s@) == "table"@ ==> r == Ok::<OutputFormat, String>(OutputFormat::Table),
            lowercase_of(s@) != "json"@ && lowercase_of(s@) != "jsonl"@ && lowercase_of(s@)
                != "table"@ ==> (r matches Err(e) && e@ == "unknown format: "@ + s@),
    {
        let low = to_lowercase(s);
        proof {
            reveal_strlit("json");
            reveal_strlit("jsonl");
            reveal_strlit("table");
            assert("json"@.len() == 4 && "jsonl"@.len() == 5 && "table"@.len() == 5);
            assert("json"@ != "jsonl"@);
            assert("table"@[0] != "json"@[0] && "table"@[0] != "jsonl"@[0]);
            assert("json"@ != "table"@ && "jsonl"@ != "table"@);
        }
        if same_text(low.as_str(), "json") {
            Ok(OutputFormat::Json)
        } else if same_text(low.as_str(), "jsonl") {
            Ok(OutputFormat::Jsonl)
        } else if same_text(low.as_str(), "table") {
            Ok(OutputFormat::Table)
        } else {
            let mut e = String::new();
            e.append("unknown format: ");
            e.append(s);
            Err(e)
        }
    }
}

impl std::str::FromStr for OutputFormat {
    type Err = String;

    fn from_str(s: &str) -> (r: Result<Self, Self::Err>)
        ensures
            lowercase_of(s@) == "json"@ ==> r == Ok::<OutputFormat, String>(OutputFormat::Json),
            lowercase_of(s@) == "jsonl"@ ==> r == Ok::<OutputFormat, String>(OutputFormat::Jsonl),
            lowercase_of(s@) == "table"@ ==> r == Ok::<OutputFormat, String>(OutputFormat::Table),
            lowercase_of(s@) != "json"@ && lowercase_of(s@) != "jsonl"@ && lowercase_of(s@)
                != "table"@ ==> (r matches Err(e) && e@ == "unknown format: "@ + s@),
    {
        OutputFormat::parse(s)
    }
}

// ---------------------------------------------------------------------------
// Recipe parameters
// ---------------------------------------------------------------------------

/// The recipe parameters among the `key=value` options: those whose key
/// starts with `param.`, with every leading `param.` removed from the key.
pub open spec fn recipe_params_spec(ps: Seq<(String, String)>) -> Seq<(Seq<char>, Seq<char>)>
    decreases ps.len(),
{
    if ps.len() == 0 {
        Seq::empty()
    } else {
        let rest = recipe_params_spec(ps.drop_last());
        let p = ps.last();
        if starts_with(p.0@, "param."@) {
            rest.push((strip_prefixes(p.0@, "param."@), p.1@))
        } else {
            rest
        }
    }
}

/// The views of a list of text pairs.
pub open spec fn pairs_view(ps: Seq<(String, String)>) -> Seq<(Seq<char>, Seq<char>)> {
    ps.map_values(|p: (String, String)| (p.0@, p.1@))
}

/// Picks the recipe parameters out of the crawl's `key=value` options.
pub fn recipe_params(params: &Vec<(String, String)>) -> (r: Vec<(String, String)>)
    ensures
        pairs_view(r@) == recipe_params_spec(params@),
{
    let prefix = chars_of("param.");
    let mut out: Vec<(String, String)> = Vec::new();
    let mut i: usize = 0;
    assert(params@.take(0) =~= Seq::<(String, String)>::empty());
    assert(pairs_view(out@) =~= recipe_params_spec(params@.take(0)));
    while i < params.len()
        invariant
            i <= params.len(),
            prefix@ == "param."@,
            pairs_view(out@) == recipe_params_spec(params@.take(i as int)),
        decreases params.len() - i,
    {
        proof {
            assert(params@.take(i + 1).drop_last() =~= params@.take(i as int));
            assert(params@.take(i + 1).last() == params@[i as int]);
        }
        let key = chars_of(params[i].0.as_str());
        if has_prefix(&key, &prefix) {
            let stripped = strip_all_prefixes(&key, &prefix);
            let ghost before = out@;
            out.push((string_of(&stripped), params[i].1.clone()));
            assert(pairs_view(out@) =~= pairs_view(before).push(
                (out@.last().0@, out@.last().1@),
            ));
        }
        i = i + 1;
    }
    assert(params@.take(params.len() as int) =~= params@);
    out
}

// ---------------------------------------------------------------------------
// What `--notify` sends
// ---------------------------------------------------------------------------

/// The items `crawl --notify` sends: those the store did not hold yet (or
/// held only beyond the dedup window), in the order found.
pub open spec fn fresh_items(items: Seq<FeedItem>, is_new: Seq<bool>) -> Seq<FeedItem>
    decreases items.len(),
{
    if items.len() == 0 || is_new.len() == 0 {
        Seq::empty()
    } else {
        let rest = fresh_items(items.drop_last(), is_new.drop_last());
        if is_new.last() {
            rest.push(items.last())
        } else {
            rest
        }
    }
}

/// Picks the items to notify from a crawl, given for each whether the
/// store found it new.
pub fn new_items(items: &Vec<FeedItem>, is_new: &Vec<bool>) -> (r: Vec<FeedItem>)
    requires
        items.len() == is_new.len(),
    ensures
        r@ == fresh_items(items@, is_new@),
{
    let mut out: Vec<FeedItem> = Vec::new();
    let mut i: usize = 0;
    assert(items@.take(0) =~= Seq::<FeedItem>::empty());
    while i < items.len()
        invariant
            i <= items.len(),
            items.len() == is_new.len(),
            out@ == fresh_items(items@.take(i as int), is_new@.take(i as int)),
        decreases items.len() - i,
    {
        proof {
            assert(items@.take(i + 1).drop_last() =~= items@.take(i as int));
            assert(is_new@.take(i + 1).drop_last() =~= is_new@.take(i as int));
            assert(items@.take(i + 1).last() == items@[i as int]);
            assert(is_new@.take(i + 1).last() == is_new@[i as int]);
        }
        if is_new[i] {
            out.push(items[i].clone());
        }
        i = i + 1;
    }
    assert(items@.take(items.len() as int) =~= items@);
    assert(is_new@.take(is_new.len() as int) =~= is_new@);
    out
}

// ---------------------------------------------------------------------------
// The items shown
// ---------------------------------------------------------------------------

/// The (site, item) pairs of the crawl results, site by site in order.
pub open spec fn flat_results(rs: Seq<(String, Vec<FeedItem>)>) -> Seq<(Seq<char>, FeedItem)>
    decreases rs.len(),
{
    if rs.len() == 0 {
        Seq::empty()
    } else {
        flat_results(rs.drop_last()) + rs.last().1@.map_values(
            |it: FeedItem| (rs.last().0@, it),
        )
    }
}

/// The items shown: all of them, or the first `n` when a limit is given.
pub open spec fn shown_items(rs: Seq<(String, Vec<FeedItem>)>, limit: Option<usize>) -> Seq<
    (Seq<char>, FeedItem),
> {
    let all = flat_results(rs);
    match limit {
        Some(n) => if n < all.len() {
            all.take(n as int)
        } else {
            all
        },
        None => all,
    }
}

/// The views of a list of (site, item) pairs.
pub open spec fn site_items_view(v: Seq<(String, FeedItem)>) -> Seq<(Seq<char>, FeedItem)> {
    v.map_values(|p: (String, FeedItem)| (p.0@, p.1))
}

/// Flattens the per-site results and applies the limit.
pub fn select_output(results: &Vec<(String, Vec<FeedItem>)>, limit: Option<usize>) -> (r: Vec<
    (String, FeedItem),
>)
    ensures
        site_items_view(r@) == shown_items(results@, limit),
{
    let mut all: Vec<(String, FeedItem)> = Vec::new();
    let mut k: usize = 0;
    assert(results@.take(0) =~= Seq::<(String, Vec<FeedItem>)>::empty());
    assert(site_items_view(all@) =~= flat_results(results@.take(0)));
    while k < results.len()
        invariant
            k <= results.len(),
            site_items_view(all@) == flat_results(results@.take(k as int)),
        decreases results.len() - k,
    {
        let site = &results[k].0;
        let items = &results[k].1;
        let ghost base = all@;
        let ghost mapped = items@.map_values(|it: FeedItem| (site@, it));
        let mut j: usize = 0;
        assert(site_items_view(all@) =~= site_items_view(base) + mapped.take(0));
        while j < items.len()
            invariant
                j <= items.len(),
                mapped == items@.map_values(|it: FeedItem| (site@, it)),
                site_items_view(all@) == site_items_view(base) + mapped.take(j as int),
            decreases items.len() - j,
        {
            let ghost before = all@;
            all.push((site.clone(), items[j].clone()));
            assert(site_items_view(all@) =~= site_items_view(before).push((site@, items@[j as int])));
            j = j + 1;
            assert(site_items_view(all@) =~= site_items_view(base) + mapped.take(j as int));
        }
        proof {
            assert(mapped.take(items.len() as int) =~= mapped);
            assert(results@.take(k + 1).drop_last() =~= results@.take(k as int));
            assert(results@.take(k + 1).last() == results@[k as int]);
        }
        k = k + 1;
    }
    assert(results@.take(results.len() as int) =~= results@);
    match limit {
        Some(n) => {
            if n < all.len() {
                let mut shown: Vec<(String, FeedItem)> = Vec::new();
                let mut i: usize = 0;
                while i < n
                    invariant
                        i <= n < all.len(),
                        site_items_view(shown@) == site_items_view(all@).take(i as int),
                    decreases n - i,
                {
                    let ghost before = shown@;
                    shown.push((all[i].0.clone(), all[i].1.clone()));
                    assert(site_items_view(all@)[i as int] == (all@[i as int].0@, all@[i as int].1));
                    assert(site_items_view(shown@) =~= site_items_view(before).push(
                        site_items_view(all@)[i as int],
                    ));
                    assert(site_items_view(shown@) =~= site_items_view(all@).take(i + 1));
                    i = i + 1;
                }
                shown
            } else {
                all
            }
        },
        None => all,
    }
}

// ---------------------------------------------------------------------------
// Printing items
// ---------------------------------------------------------------------------

/// The fields printed for a site payload. 1point3acres payloads print none.
pub open spec fn site_data_json(sd: SiteData) -> Seq<(Seq<char>, OutScalarV)> {
    match sd {
        SiteData::Hackernews(h) => seq![
            ("score"@, OutScalarV::Int(h.score as i64)),
            ("comments"@, OutScalarV::Int(h.comments as i64)),
            ("age"@, OutScalarV::Text(h.age@)),
        ],
        SiteData::Reddit(r) => seq![
            ("subreddit"@, OutScalarV::Text(r.subreddit@)),
            ("upvotes"@, OutScalarV::Int(r.upvotes as i64)),
            ("comments"@, OutScalarV::Int(r.comments as i64)),
            ("author"@, OutScalarV::Text(r.author@)),
        ],
        SiteData::Xueqiu(x) => seq![
            ("author"@, OutScalarV::Text(x.author@)),
            ("replies"@, OutScalarV::Int(x.replies as i64)),
            ("likes"@, OutScalarV::Int(x.likes as i64)),
            ("symbol"@, OutScalarV::Text(x.symbol@)),
        ],
        SiteData::Zhihu(z) => seq![
            ("upvotes"@, OutScalarV::Int(z.upvotes as i64)),
            ("answers"@, OutScalarV::Int(z.answers as i64)),
            ("author"@, OutScalarV::Text(z.author@)),
            ("topic"@, OutScalarV::Text(z.topic@)),
        ],
        SiteData::Linkedin(l) => seq![
            ("author"@, OutScalarV::Text(l.author@)),
            ("likes"@, OutScalarV::Int(l.likes as i64)),
            ("comments"@, OutScalarV::Int(l.comments as i64)),
            ("company"@, OutScalarV::Text(l.company@)),
        ],
        SiteData::X(x) => seq![
            ("author"@, OutScalarV::Text(x.author@)),
            ("likes"@, OutScalarV::Int(x.likes as i64)),
            ("retweets"@, OutScalarV::Int(x.retweets as i64)),
            ("replies"@, OutScalarV::Int(x.replies as i64)),
        ],
        SiteData::OnePoint3Acres(_) => Seq::empty(),
    }
}

/// The fields printed for a site payload.
pub fn site_data_fields(sd: &SiteData) -> (r: Vec<(String, OutScalar)>)
    ensures
        scalar_fields_view(r@) == site_data_json(*sd),
{
    let mut r: Vec<(String, OutScalar)> = Vec::new();
    match sd {
        SiteData::Hackernews(h) => {
            r.push(int_entry("score", h.score as i64));
            r.push(int_entry("comments", h.comments as i64));
            r.push(text_entry("age", h.age.as_str()));
        },
        SiteData::Reddit(x) => {
            r.push(text_entry("subreddit", x.subreddit.as_str()));
            r.push(int_entry("upvotes", x.upvotes as i64));
            r.push(int_entry("comments", x.comments as i64));
            r.push(text_entry("author", x.author.as_str()));
        },
        SiteData::Xueqiu(x) => {
            r.push(text_entry("author", x.author.as_str()));
            r.push(int_entry("replies", x.replies as i64));
            r.push(int_entry("likes", x.likes as i64));
            r.push(text_entry("symbol", x.symbol.as_str()));
        },
        SiteData::Zhihu(x) => {
            r.push(int_entry("upvotes", x.upvotes as i64));
            r.push(int_entry("answers", x.answers as i64));
            r.push(text_entry("author", x.author.as_str()));
            r.push(text_entry("topic", x.topic.as_str()));
        },
        SiteData::Linkedin(x) => {
            r.push(text_entry("author", x.author.as_str()));
            r.push(int_entry("likes", x.likes as i64));
            r.push(int_entry("comments", x.comments as i64));
            r.push(text_entry("company", x.company.as_str()));
        },
        SiteData::X(x) => {
            r.push(text_entry("author", x.author.as_str()));
            r.push(int_entry("likes", x.likes as i64));
            r.push(int_entry("retweets", x.retweets as i64));
            r.push(int_entry("replies", x.replies as i64));
        },
        SiteData::OnePoint3Acres(_) => {},
    }
    assert(scalar_fields_view(r@) =~= site_data_json(*sd));
    r
}

/// The fields printed for an item: id, site, title and url; without
/// `compact` also the preview and, when there is one, the site payload.
pub open spec fn item_json(site: Seq<char>, item: FeedItem, compact: bool) -> Seq<
    (Seq<char>, OutValueV),
> {
    let base = seq![
        ("id"@, OutValueV::Scalar(OutScalarV::Text(item.id@))),
        ("site"@, OutValueV::Scalar(OutScalarV::Text(site))),
        ("title"@, OutValueV::Scalar(OutScalarV::Text(item.title@))),
        ("url"@, OutValueV::Scalar(OutScalarV::Text(item.url@))),
    ];
    if compact {
        base
    } else {
        let with_preview = base.push(("preview"@, OutValueV::Scalar(OutScalarV::Text(item.preview@))));
        match item.site_data {
            Some(sd) => with_preview.push(("site_data"@, OutValueV::Object(site_data_json(sd)))),
            None => with_preview,
        }
    }
}

/// The fields printed for an item in JSON and JSONL output.
pub fn item_fields(site: &str, item: &FeedItem, compact: bool) -> (r: Vec<(String, OutValue)>)
    ensures
        fields_view(r@) == item_json(site@, *item, compact),
{
    let mut r: Vec<(String, OutValue)> = Vec::new();
    r.push(text_field("id", item.id.as_str()));
    r.push(text_field("site", site));
    r.push(text_field("title", item.title.as_str()));
    r.push(text_field("url", item.url.as_str()));
    if !compact {
        r.push(text_field("preview", item.preview.as_str()));
        match &item.site_data {
            Some(sd) => {
                let mut k = String::new();
                k.append("site_data");
                r.push((k, OutValue::Object(site_data_fields(sd))));
            },
            None => {},
        }
    }
    assert(fields_view(r@) =~= item_json(site@, *item, compact));
    r
}

/// The number of bytes a character takes in UTF-8.
pub open spec fn utf8_width(c: char) -> nat {
    if (c as u32) < 0x80 {
        1
    } else if (c as u32) < 0x800 {
        2
    } else if (c as u32) < 0x10000 {
        3
    } else {
        4
    }
}

/// The number of bytes a text takes in UTF-8.
pub open spec fn utf8_len(s: Seq<char>) -> nat
    decreases s.len(),
{
    if s.len() == 0 {
        0
    } else {
        utf8_len(s.drop_last()) + utf8_width(s.last())
    }
}

/// Bytes of preview a table row shows.
pub const TABLE_PREVIEW_BYTES: usize = 50;

/// Whether the first `k` characters of `s` take exactly `bytes` bytes.
pub open spec fn is_byte_prefix(s: Seq<char>, k: int, bytes: nat) -> bool {
    0 <= k <= s.len() && utf8_len(s.take(k)) == bytes
}

/// The preview as a table row shows it: when longer than 50 bytes, its
/// first 50 bytes followed by `...`.
pub open spec fn table_preview(p: Seq<char>) -> Seq<char> {
    if utf8_len(p) > TABLE_PREVIEW_BYTES {
        p.take(choose|k: int| is_byte_prefix(p, k, TABLE_PREVIEW_BYTES as nat)) + "..."@
    } else {
        p
    }
}

/// A table row: site, title, url and the shortened preview.
pub open spec fn table_row(site: Seq<char>, item: FeedItem) -> Seq<char> {
    "["@ + site + "] "@ + item.title@ + " | "@ + item.url@ + " | "@ + table_preview(item.preview@)
}

proof fn lemma_utf8_len_take(s: Seq<char>, k: int)
    requires
        0 <= k < s.len(),
    ensures
        utf8_len(s.take(k + 1)) == utf8_len(s.take(k)) + utf8_width(s[k]),
{
    assert(s.take(k + 1).drop_last() =~= s.take(k));
}

proof fn lemma_utf8_len_mono(s: Seq<char>, a: int, b: int)
    requires
        0 <= a <= b <= s.len(),
    ensures
        utf8_len(s.take(a)) + (b - a) <= utf8_len(s.take(b)),
    decreases b - a,
{
    if a < b {
        lemma_utf8_len_mono(s, a, b - 1);
        lemma_utf8_len_take(s, b - 1);
    }
}

/// Formats an item as a table row. A preview longer than 50 bytes must
/// have a character boundary at byte 50.
pub fn table_line(site: &str, item: &FeedItem) -> (r: String)
    requires
        utf8_len(item.preview@) > TABLE_PREVIEW_BYTES ==> exists|k: int|
            is_byte_prefix(item.preview@, k, TABLE_PREVIEW_BYTES as nat),
    ensures
        r@ == table_row(site@, *item),
{
    let p = chars_of(item.preview.as_str());
    let ghost ps = p@;
    // Count bytes up to the first character that reaches past 50 bytes.
    let mut bytes: usize = 0;
    let mut k: usize = 0;
    let mut cut: usize = 0;
    assert(ps.take(0) =~= Seq::<char>::empty());
    while k < p.len() && bytes <= TABLE_PREVIEW_BYTES
        invariant
            ps == p@,
            k <= p.len(),
            bytes == utf8_len(ps.take(k as int)),
            bytes <= TABLE_PREVIEW_BYTES + 4,
            bytes <= TABLE_PREVIEW_BYTES ==> cut == k,
            bytes > TABLE_PREVIEW_BYTES ==> cut + 1 == k && utf8_len(ps.take(cut as int))
                <= TABLE_PREVIEW_BYTES,
        decreases p.len() - k,
    {
        let c = p[k];
        let w: usize = if (c as u32) < 0x80 {
            1
        } else if (c as u32) < 0x800 {
            2
        } else if (c as u32) < 0x10000 {
            3
        } else {
            4
        };
        proof {
            lemma_utf8_len_take(ps, k as int);
        }
        bytes = bytes + w;
        k = k + 1;
        if bytes <= TABLE_PREVIEW_BYTES {
            cut = k;
        }
    }
    let long = bytes > TABLE_PREVIEW_BYTES;
    proof {
        if !long {
            assert(k == p.len());
            assert(ps.take(k as int) =~= ps);
        } else {
            lemma_utf8_len_mono(ps, k as int, ps.len() as int);
            assert(ps.take(ps.len() as int) =~= ps);
        }
    }
    let mut r = String::new();
    r.append("[");
    r.append(site);
    r.append("] ");
    r.append(item.title.as_str());
    r.append(" | ");
    r.append(item.url.as_str());
    r.append(" | ");
    if long {
        proof {
            let w = choose|j: int| is_byte_prefix(ps, j, TABLE_PREVIEW_BYTES as nat);
            assert(is_byte_prefix(ps, w, TABLE_PREVIEW_BYTES as nat));
            // The prefix ending at byte 50 is the one counted above.
            if w < cut {
                lemma_utf8_len_mono(ps, w, cut as int);
            } else if w > cut {
                lemma_utf8_len_mono(ps, k as int, w);
            }
            assert(w == cut);
        }
        let head = crate::scan::slice_chars(&p, 0, cut);
        crate::text::push_chars(&mut r, &head);
        r.append("...");
        assert(head@ =~= ps.take(cut as int));
    } else {
        r.append(item.preview.as_str());
    }
    assert(r@ =~= table_row(site@, *item));
    r
}

} // verus!
