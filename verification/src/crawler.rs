//! Turning a recipe's output into typed feed items.
//!
//! A recipe yields a list of outputs, each a set of named texts; the one
//! named `items` holds a JSON array of `{id, title, url, preview, ...}`
//! objects. Running the recipe in the browser is the application's work.

use vstd::prelude::*;
use crate::json::{
    get_field, int_of_field, items_view, json_items_of, parse_items, text_field, JsonField,
    JsonFieldV, JsonItem, JsonItemV,
};
use crate::proto::feed_item::SiteData;
use crate::proto::{
    FeedItem, HackerNewsData, LinkedInData, OnePoint3AcresData, RedditData, XData, XueqiuData,
    ZhihuData,
};
use crate::text::same_text;

verus! {

/// Field `key` as text; empty when missing or not a string.
pub open spec fn str_field_spec(v: JsonItemV, key: Seq<char>) -> Seq<char> {
    match text_field(v, key) {
        Some(s) => s,
        None => Seq::empty(),
    }
}

/// Field `key` as an `i32`: an integer field fitting `i64` is truncated to
/// 32 bits; anything else gives 0.
pub open spec fn int_field_spec(v: JsonItemV, key: Seq<char>) -> i32 {
    match int_of_field(v, key) {
        Some(n) => n as i32,
        None => 0,
    }
}

/// Reads field `key` as text; empty when missing or not a string.
pub fn str_field(v: &JsonItem, key: &str) -> (r: String)
    ensures
        r@ == str_field_spec(v@, key@),
{
    match v.get(key) {
        Some(JsonField::Str(s)) => s.clone(),
        _ => String::new(),
    }
}

/// Reads field `key` as an `i32` (0 when missing or not an integer).
pub fn int_field(v: &JsonItem, key: &str) -> (r: i32)
    ensures
        r == int_field_spec(v@, key@),
{
    match v.get(key) {
        Some(JsonField::Number(Some(n))) => *n as i32,
        _ => 0,
    }
}

/// Whether an item has the fields every feed item needs: `id` and `title`
/// as strings.
pub open spec fn has_identity(v: JsonItemV) -> bool {
    text_field(v, "id"@) is Some && text_field(v, "title"@) is Some
}

/// Whether `sd` is the typed payload that `site` calls for, read from `v`.
/// Sites without a payload type get none.
pub open spec fn site_data_matches(site: Seq<char>, v: JsonItemV, sd: Option<SiteData>) -> bool {
    if site == "hackernews"@ {
        sd matches Some(SiteData::Hackernews(d)) && d.score == int_field_spec(v, "score"@)
            && d.comments == int_field_spec(v, "comments"@) && d.age@ == str_field_spec(
            v,
            "age"@,
        ) && d.site_url@ == str_field_spec(v, "site_url"@)
    } else if site == "reddit"@ {
        sd matches Some(SiteData::Reddit(d)) && d.subreddit@ == str_field_spec(v, "subreddit"@)
            && d.upvotes == int_field_spec(v, "upvotes"@) && d.comments == int_field_spec(
            v,
            "comments"@,
        ) && d.author@ == str_field_spec(v, "author"@)
    } else if site == "1point3acres"@ {
        sd matches Some(SiteData::OnePoint3Acres(d)) && d.forum@ == str_field_spec(v, "forum"@)
            && d.author@ == str_field_spec(v, "author"@) && d.post_content@ == str_field_spec(
            v,
            "post_content"@,
        )
    } else if site == "zhihu"@ {
        sd matches Some(SiteData::Zhihu(d)) && d.upvotes == int_field_spec(v, "upvotes"@)
            && d.answers == int_field_spec(v, "answers"@) && d.author@ == str_field_spec(
            v,
            "author"@,
        ) && d.topic@ == str_field_spec(v, "topic"@)
    } else if site == "xueqiu"@ {
        sd matches Some(SiteData::Xueqiu(d)) && d.author@ == str_field_spec(v, "author"@)
            && d.replies == int_field_spec(v, "replies"@) && d.likes == int_field_spec(
            v,
            "likes"@,
        ) && d.symbol@ == str_field_spec(v, "symbol"@)
    } else if site == "linkedin"@ {
        sd matches Some(SiteData::Linkedin(d)) && d.author@ == str_field_spec(v, "author"@)
            && d.likes == int_field_spec(v, "likes"@) && d.comments == int_field_spec(
            v,
            "comments"@,
        ) && d.company@ == str_field_spec(v, "company"@)
    } else if site == "x"@ {
        sd matches Some(SiteData::X(d)) && d.author@ == str_field_spec(v, "author"@) && d.likes
            == int_field_spec(v, "likes"@) && d.retweets == int_field_spec(v, "retweets"@)
            && d.replies == int_field_spec(v, "replies"@) && d.datetime@ == str_field_spec(
            v,
            "datetime"@,
        )
    } else {
        sd is None
    }
}

/// Whether `item` is the feed item that `v` describes for `site`.
pub open spec fn item_matches(site: Seq<char>, v: JsonItemV, item: FeedItem) -> bool {
    &&& text_field(v, "id"@) == Some(item.id@)
    &&& text_field(v, "title"@) == Some(item.title@)
    &&& item.url@ == str_field_spec(v, "url"@)
    &&& item.preview@ == str_field_spec(v, "preview"@)
    &&& site_data_matches(site, v, item.site_data)
}

fn site_data_for(site: &str, v: &JsonItem) -> (r: Option<SiteData>)
    ensures
        site_data_matches(site@, v@, r),
{
    if same_text(site, "hackernews") {
        Some(
            SiteData::Hackernews(
                HackerNewsData {
                    score: int_field(v, "score"),
                    comments: int_field(v, "comments"),
                    age: str_field(v, "age"),
                    site_url: str_field(v, "site_url"),
                },
            ),
        )
    } else if same_text(site, "reddit") {
        Some(
            SiteData::Reddit(
                RedditData {
                    subreddit: str_field(v, "subreddit"),
                    upvotes: int_field(v, "upvotes"),
                    comments: int_field(v, "comments"),
                    author: str_field(v, "author"),
                },
            ),
        )
    } else if same_text(site, "1point3acres") {
        Some(
            SiteData::OnePoint3Acres(
                OnePoint3AcresData {
                    forum: str_field(v, "forum"),
                    author: str_field(v, "author"),
                    post_content: str_field(v, "post_content"),
                },
            ),
        )
    } else if same_text(site, "zhihu") {
        Some(
            SiteData::Zhihu(
                ZhihuData {
                    upvotes: int_field(v, "upvotes"),
                    answers: int_field(v, "answers"),
                    author: str_field(v, "author"),
                    topic: str_field(v, "topic"),
                },
            ),
        )
    } else if same_text(site, "xueqiu") {
        Some(
            SiteData::Xueqiu(
                XueqiuData {
                    author: str_field(v, "author"),
                    replies: int_field(v, "replies"),
                    likes: int_field(v, "likes"),
                    symbol: str_field(v, "symbol"),
                },
            ),
        )
    } else if same_text(site, "linkedin") {
        Some(
            SiteData::Linkedin(
                LinkedInData {
                    author: str_field(v, "author"),
                    likes: int_field(v, "likes"),
                    comments: int_field(v, "comments"),
                    company: str_field(v, "company"),
                },
            ),
        )
    } else if same_text(site, "x") {
        Some(
            SiteData::X(
                XData {
                    author: str_field(v, "author"),
                    likes: int_field(v, "likes"),
                    retweets: int_field(v, "retweets"),
                    replies: int_field(v, "replies"),
                    datetime: str_field(v, "datetime"),
                },
            ),
        )
    } else {
        None
    }
}

/// Converts one JSON item from a recipe into a typed feed item.
/// Items without a string `id` or `title` give `None`; a site without a
/// payload type gives an item without one.
pub fn value_to_feed_item(site: &str, v: &JsonItem) -> (r: Option<FeedItem>)
    ensures
        r is Some <==> has_identity(v@),
        r matches Some(item) ==> item_matches(site@, v@, item),
{
    let id = match v.get("id") {
        Some(JsonField::Str(s)) => s.clone(),
        _ => return None,
    };
    let title = match v.get("title") {
        Some(JsonField::Str(s)) => s.clone(),
        _ => return None,
    };
    let url = str_field(v, "url");
    let preview = str_field(v, "preview");
    let site_data = site_data_for(site, v);
    Some(FeedItem { id, title, url, preview, site_data })
}

/// The items of `vs` that have an identity, in order.
pub open spec fn identified(vs: Seq<JsonItemV>) -> Seq<JsonItemV>
    decreases vs.len(),
{
    if vs.len() == 0 {
        Seq::empty()
    } else if has_identity(vs.last()) {
        identified(vs.drop_last()).push(vs.last())
    } else {
        identified(vs.drop_last())
    }
}

/// Whether `items` are, one for one and in order, the feed items that
/// `vs` describe for `site`.
pub open spec fn items_match(site: Seq<char>, vs: Seq<JsonItemV>, items: Seq<FeedItem>) -> bool {
    &&& items.len() == identified(vs).len()
    &&& forall|i: int| 0 <= i < items.len() ==> item_matches(site, identified(vs)[i], #[trigger] items[i])
}

/// Appends to `out` the feed items that `values` describe for `site`,
/// skipping those without an identity.
pub fn push_feed_items(site: &str, values: &Vec<JsonItem>, out: &mut Vec<FeedItem>)
    ensures
        final(out)@.len() >= old(out)@.len(),
        final(out)@.take(old(out)@.len() as int) == old(out)@,
        items_match(site@, items_view(values@), final(out)@.skip(old(out)@.len() as int)),
{
    let ghost start = old(out)@.len() as int;
    let ghost vs = items_view(values@);
    let mut i: usize = 0;
    assert(vs.take(0) =~= Seq::<JsonItemV>::empty());
    assert(out@.skip(start) =~= Seq::<FeedItem>::empty());
    while i < values.len()
        invariant
            i <= values.len(),
            start == old(out)@.len(),
            vs == items_view(values@),
            out@.len() >= start,
            out@.take(start) == old(out)@,
            items_match(site@, vs.take(i as int), out@.skip(start)),
        decreases values.len() - i,
    {
        let ghost before = out@;
        proof {
            assert(vs.take(i + 1).drop_last() =~= vs.take(i as int));
            assert(vs.take(i + 1).last() == values@[i as int]@);
        }
        match value_to_feed_item(site, &values[i]) {
            Some(item) => {
                out.push(item);
                assert(out@.take(start) =~= before.take(start));
                assert(out@.skip(start) =~= before.skip(start).push(out@.last()));
            },
            None => {},
        }
        i = i + 1;
    }
    assert(vs.take(values.len() as int) =~= vs);
}

/// The value named `key` in a recipe output, if any.
pub open spec fn output_value(o: Seq<(String, String)>, key: Seq<char>) -> Option<Seq<char>>
    decreases o.len(),
{
    if o.len() == 0 {
        None
    } else if o[0].0@ == key {
        Some(o[0].1@)
    } else {
        output_value(o.drop_first(), key)
    }
}

/// The JSON items that the outputs carry under `items`, in order: an output
/// without `items`, or whose `items` is not a JSON array, adds none.
pub open spec fn output_values(outputs: Seq<Vec<(String, String)>>) -> Seq<JsonItemV>
    decreases outputs.len(),
{
    if outputs.len() == 0 {
        Seq::empty()
    } else {
        let rest = output_values(outputs.drop_last());
        match output_value(outputs.last()@, "items"@) {
            Some(t) => match json_items_of(t) {
                Some(vs) => rest + vs,
                None => rest,
            },
            None => rest,
        }
    }
}

fn output_items(o: &Vec<(String, String)>) -> (r: Option<&String>)
    ensures
        match r {
            Some(t) => output_value(o@, "items"@) == Some(t@),
            None => output_value(o@, "items"@) is None,
        },
{
    let mut i: usize = 0;
    assert(o@.skip(0) =~= o@);
    while i < o.len()
        invariant
            i <= o.len(),
            output_value(o@, "items"@) == output_value(o@.skip(i as int), "items"@),
        decreases o.len() - i,
    {
        assert(o@.skip(i as int)[0] == o@[i as int]);
        if same_text(o[i].0.as_str(), "items") {
            return Some(&o[i].1);
        }
        assert(o@.skip(i as int).drop_first() =~= o@.skip(i + 1));
        i = i + 1;
    }
    assert(o@.skip(i as int) =~= Seq::<(String, String)>::empty());
    None
}

proof fn lemma_identified_add(a: Seq<JsonItemV>, b: Seq<JsonItemV>)
    ensures
        identified(a + b) == identified(a) + identified(b),
    decreases b.len(),
{
    if b.len() == 0 {
        assert(a + b =~= a);
        assert(identified(a) + identified(b) =~= identified(a));
    } else {
        lemma_identified_add(a, b.drop_last());
        assert((a + b).drop_last() =~= a + b.drop_last());
        assert((a + b).last() == b.last());
        if has_identity(b.last()) {
            assert(identified(a) + identified(b) =~= (identified(a) + identified(b.drop_last())).push(b.last()));
        }
    }
}

/// Collects the feed items of all recipe outputs: each output's `items`
/// text is parsed as a JSON array and its identified objects converted.
pub fn items_from_outputs(site: &str, outputs: &Vec<Vec<(String, String)>>) -> (r: Vec<FeedItem>)
    ensures
        items_match(site@, output_values(outputs@), r@),
{
    let mut out: Vec<FeedItem> = Vec::new();
    let mut k: usize = 0;
    assert(outputs@.take(0) =~= Seq::<Vec<(String, String)>>::empty());
    while k < outputs.len()
        invariant
            k <= outputs.len(),
            items_match(site@, output_values(outputs@.take(k as int)), out@),
        decreases outputs.len() - k,
    {
        let ghost before = out@;
        let ghost prev_vals = output_values(outputs@.take(k as int));
        proof {
            assert(outputs@.take(k + 1).drop_last() =~= outputs@.take(k as int));
            assert(outputs@.take(k + 1).last() == outputs@[k as int]);
        }
        match output_items(&outputs[k]) {
            Some(text) => match parse_items(text.as_str()) {
                Some(values) => {
                    push_feed_items(site, &values, &mut out);
                    proof {
                        let vs = items_view(values@);
                        let added = out@.skip(before.len() as int);
                        lemma_identified_add(prev_vals, vs);
                        assert(out@.take(before.len() as int) == before);
                        assert forall|i: int| 0 <= i < out@.len() implies out@[i] == (before
                            + added)[i] by {
                            if i < before.len() {
                                assert(out@.take(before.len() as int)[i] == out@[i]);
                            }
                        }
                        assert(out@ =~= before + added);
                        assert forall|i: int| 0 <= i < out@.len() implies item_matches(
                            site@,
                            identified(prev_vals + vs)[i],
                            #[trigger] out@[i],
                        ) by {
                            if i < before.len() {
                                assert(out@[i] == before[i]);
                            } else {
                                assert(out@[i] == added[i - before.len()]);
                            }
                        }
                    }
                },
                None => {},
            },
            None => {},
        }
        k = k + 1;
    }
    assert(outputs@.take(outputs.len() as int) =~= outputs@);
    out
}

/// Why running a recipe failed.
#[derive(Debug, Clone)]
pub enum CrawlError {
    Parse(String),
    Execute(String),
}

impl CrawlError {
    /// The error's message.
    pub fn describe(&self) -> (r: String)
        ensures
            r@ == (match self {
                CrawlError::Parse(e) => "recipe parse error: "@ + e@,
                CrawlError::Execute(e) => "recipe execution error: "@ + e@,
            }),
    {
        let mut r = String::new();
        match self {
            CrawlError::Parse(e) => {
                r.append("recipe parse error: ");
                r.append(e.as_str());
            },
            CrawlError::Execute(e) => {
                r.append("recipe execution error: ");
                r.append(e.as_str());
            },
        }
        r
    }
}

/// The result of a finished recipe run: when the run ended in an error,
/// that error (or "unknown error"); otherwise the items of its outputs.
pub fn recipe_result(
    site: &str,
    failed: bool,
    error: Option<String>,
    outputs: &Vec<Vec<(String, String)>>,
) -> (r: Result<Vec<FeedItem>, CrawlError>)
    ensures
        failed ==> (r matches Err(CrawlError::Execute(e)) && e@ == (match error {
            Some(m) => m@,
            None => "unknown error"@,
        })),
        !failed ==> (r matches Ok(items) && items_match(site@, output_values(outputs@), items@)),
{
    if failed {
        let msg = match error {
            Some(m) => m,
            None => {
                let mut m = String::new();
                m.append("unknown error");
                m
            },
        };
        return Err(CrawlError::Execute(msg));
    }
    Ok(items_from_outputs(site, outputs))
}

/// The name of a site's recipe file.
pub fn recipe_file_name(site: &str) -> (r: String)
    ensures
        r@ == site@ + "-feed.yaml"@,
{
    let mut r = String::new();
    r.append(site);
    r.append("-feed.yaml");
    r
}

// ---------------------------------------------------------------------------
// What a feed item holds
// ---------------------------------------------------------------------------

/// The text of JSON field `k` of `v`: its string, or empty when it is
/// missing or not a string.
pub open spec fn json_text(v: JsonItemV, k: Seq<char>) -> Seq<char> {
    match get_field(v, k) {
        Some(JsonFieldV::Str(s)) => s,
        _ => Seq::empty(),
    }
}

/// The number of JSON field `k` of `v` cut to 32 bits, or 0 when it is
/// missing or not an integer.
pub open spec fn json_i32(v: JsonItemV, k: Seq<char>) -> i32 {
    match get_field(v, k) {
        Some(JsonFieldV::Number(Some(n))) => n as i32,
        _ => 0,
    }
}

/// Every field of a feed item made from `v` holds the JSON field of the
/// same name: `id`, `title`, `url`, `preview`, and each field of the
/// site's payload (`score`, `comments`, `age`, `site_url` for Hacker News,
/// and so on for every site with a payload type); other sites get no
/// payload.
pub proof fn lemma_fields_read_same_names(site: Seq<char>, v: JsonItemV, item: FeedItem)
    requires
        item_matches(site, v, item),
    ensures
        item.id@ == json_text(v, "id"@),
        item.title@ == json_text(v, "title"@),
        item.url@ == json_text(v, "url"@),
        item.preview@ == json_text(v, "preview"@),
        site == "hackernews"@ ==> (item.site_data matches Some(SiteData::Hackernews(d)) && d.score
            == json_i32(v, "score"@) && d.comments == json_i32(v, "comments"@) && d.age@
            == json_text(v, "age"@) && d.site_url@ == json_text(v, "site_url"@)),
        site == "reddit"@ ==> (item.site_data matches Some(SiteData::Reddit(d)) && d.subreddit@
            == json_text(v, "subreddit"@) && d.upvotes == json_i32(v, "upvotes"@) && d.comments
            == json_i32(v, "comments"@) && d.author@ == json_text(v, "author"@)),
        site == "1point3acres"@ ==> (item.site_data matches Some(SiteData::OnePoint3Acres(d))
            && d.forum@ == json_text(v, "forum"@) && d.author@ == json_text(v, "author"@)
            && d.post_content@ == json_text(v, "post_content"@)),
        site == "zhihu"@ ==> (item.site_data matches Some(SiteData::Zhihu(d)) && d.upvotes
            == json_i32(v, "upvotes"@) && d.answers == json_i32(v, "answers"@) && d.author@
            == json_text(v, "author"@) && d.topic@ == json_text(v, "topic"@)),
        site == "xueqiu"@ ==> (item.site_data matches Some(SiteData::Xueqiu(d)) && d.author@
            == json_text(v, "author"@) && d.replies == json_i32(v, "replies"@) && d.likes
            == json_i32(v, "likes"@) && d.symbol@ == json_text(v, "symbol"@)),
        site == "linkedin"@ ==> (item.site_data matches Some(SiteData::Linkedin(d)) && d.author@
            == json_text(v, "author"@) && d.likes == json_i32(v, "likes"@) && d.comments
            == json_i32(v, "comments"@) && d.company@ == json_text(v, "company"@)),
        site == "x"@ ==> (item.site_data matches Some(SiteData::X(d)) && d.author@ == json_text(
            v,
            "author"@,
        ) && d.likes == json_i32(v, "likes"@) && d.retweets == json_i32(v, "retweets"@)
            && d.replies == json_i32(v, "replies"@) && d.datetime@ == json_text(v, "datetime"@)),
        site != "hackernews"@ && site != "reddit"@ && site != "1point3acres"@ && site
            != "zhihu"@ && site != "xueqiu"@ && site != "linkedin"@ && site != "x"@
            ==> item.site_data is None,
{
    reveal_strlit("hackernews");
    reveal_strlit("reddit");
    reveal_strlit("1point3acres");
    reveal_strlit("zhihu");
    reveal_strlit("xueqiu");
    reveal_strlit("linkedin");
    reveal_strlit("x");
    if site == "hackernews"@ {
        assert(site[0] == 'h' && site.len() == 10);
    } else if site == "reddit"@ {
        assert(site[0] == 'r' && site.len() == 6);
    } else if site == "1point3acres"@ {
        assert(site[0] == '1' && site.len() == 12);
    } else if site == "zhihu"@ {
        assert(site[0] == 'z' && site.len() == 5);
    } else if site == "xueqiu"@ {
        assert(site[0] == 'x' && site.len() == 6);
    } else if site == "linkedin"@ {
        assert(site[0] == 'l' && site.len() == 8);
    } else if site == "x"@ {
        assert(site[0] == 'x' && site.len() == 1);
    }
}

} // verus!
