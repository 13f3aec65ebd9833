//! `myfeed dump`: feed items as JSON for agents. A list of item ids asks
//! for full details; otherwise a time range is indexed, compactly or in full.

use vstd::prelude::*;
use crate::db::FeedItem;
use crate::output::{fields_view, int_field, text_field, OutScalarV, OutValue, OutValueV};
use crate::text::same_text;

verus! {

/// The fields of an item in detail mode.
pub open spec fn detail_json(item: FeedItem) -> Seq<(Seq<char>, OutValueV)> {
    seq![
        ("id"@, OutValueV::Scalar(OutScalarV::Int(item.id as i64))),
        ("site"@, OutValueV::Scalar(OutScalarV::Text(item.site@))),
        ("title"@, OutValueV::Scalar(OutScalarV::Text(item.title@))),
        ("url"@, OutValueV::Scalar(OutScalarV::Text(item.url@))),
        ("preview"@, OutValueV::Scalar(OutScalarV::Text(item.preview@))),
        ("raw_json"@, OutValueV::Scalar(OutScalarV::Text(item.raw_json@))),
        ("created_at"@, OutValueV::Scalar(OutScalarV::Text(item.created_at@))),
    ]
}

/// The fields of an item in detail mode.
pub fn detail_fields(item: &FeedItem) -> (r: Vec<(String, OutValue)>)
    ensures
        fields_view(r@) == detail_json(*item),
{
    let mut r: Vec<(String, OutValue)> = Vec::new();
    r.push(int_field("id", item.id as i64));
    r.push(text_field("site", item.site.as_str()));
    r.push(text_field("title", item.title.as_str()));
    r.push(text_field("url", item.url.as_str()));
    r.push(text_field("preview", item.preview.as_str()));
    r.push(text_field("raw_json", item.raw_json.as_str()));
    r.push(text_field("created_at", item.created_at.as_str()));
    assert(fields_view(r@) =~= detail_json(*item));
    r
}

/// The fields of an item in a time-range dump: id, site, title and url,
/// and, unless compact, the preview and creation time.
pub open spec fn index_json(item: FeedItem, compact: bool) -> Seq<(Seq<char>, OutValueV)> {
    let base = seq![
        ("id"@, OutValueV::Scalar(OutScalarV::Int(item.id as i64))),
        ("site"@, OutValueV::Scalar(OutScalarV::Text(item.site@))),
        ("title"@, OutValueV::Scalar(OutScalarV::Text(item.title@))),
        ("url"@, OutValueV::Scalar(OutScalarV::Text(item.url@))),
    ];
    if compact {
        base
    } else {
        base + seq![
            ("preview"@, OutValueV::Scalar(OutScalarV::Text(item.preview@))),
            ("created_at"@, OutValueV::Scalar(OutScalarV::Text(item.created_at@))),
        ]
    }
}

/// The fields of an item in a time-range dump.
pub fn index_fields(item: &FeedItem, compact: bool) -> (r: Vec<(String, OutValue)>)
    ensures
        fields_view(r@) == index_json(*item, compact),
{
    let mut r: Vec<(String, OutValue)> = Vec::new();
    r.push(int_field("id", item.id as i64));
    r.push(text_field("site", item.site.as_str()));
    r.push(text_field("title", item.title.as_str()));
    r.push(text_field("url", item.url.as_str()));
    if !compact {
        r.push(text_field("preview", item.preview.as_str()));
        r.push(text_field("created_at", item.created_at.as_str()));
    }
    assert(fields_view(r@) =~= index_json(*item, compact));
    r
}

/// The dump's mode: `detail` for a list of ids, else `index` when compact
/// and `full` otherwise.
pub fn dump_mode(by_ids: bool, compact: bool) -> (r: &'static str)
    ensures
        r@ == (if by_ids {
            "detail"@
        } else if compact {
            "index"@
        } else {
            "full"@
        }),
{
    if by_ids {
        "detail"
    } else if compact {
        "index"
    } else {
        "full"
    }
}

/// The number of items of `site`.
pub open spec fn site_count(items: Seq<FeedItem>, site: Seq<char>) -> nat
    decreases items.len(),
{
    if items.len() == 0 {
        0
    } else {
        site_count(items.drop_last(), site) + if items.last().site@ == site {
            1nat
        } else {
            0nat
        }
    }
}

/// Whether `counts` holds each site of `items` once, with its number of
/// items, and nothing else. No order is promised: the counts form a map
/// from site to number.
pub open spec fn counts_ok(items: Seq<FeedItem>, counts: Seq<(String, usize)>) -> bool {
    &&& forall|i: int, j: int|
        0 <= i < j < counts.len() ==> #[trigger] counts[i].0@ != #[trigger] counts[j].0@
    &&& forall|i: int| 0 <= i < counts.len() ==> #[trigger] counts[i].1 == site_count(items, counts[i].0@)
    &&& forall|i: int| 0 <= i < counts.len() ==> site_count(items, #[trigger] counts[i].0@) > 0
    &&& forall|k: int|
        0 <= k < items.len() ==> exists|i: int|
            0 <= i < counts.len() && #[trigger] counts[i].0@ == #[trigger] items[k].site@
}

proof fn lemma_site_count_push(items: Seq<FeedItem>, x: FeedItem, site: Seq<char>)
    ensures
        site_count(items.push(x), site) == site_count(items, site) + if x.site@ == site {
            1nat
        } else {
            0nat
        },
{
    assert(items.push(x).drop_last() =~= items);
}

proof fn lemma_site_count_bound(items: Seq<FeedItem>, site: Seq<char>)
    ensures
        site_count(items, site) <= items.len(),
    decreases items.len(),
{
    if items.len() > 0 {
        lemma_site_count_bound(items.drop_last(), site);
    }
}

/// Counts the items of each site.
pub fn site_counts(items: &Vec<FeedItem>) -> (r: Vec<(String, usize)>)
    ensures
        counts_ok(items@, r@),
{
    let mut counts: Vec<(String, usize)> = Vec::new();
    let mut k: usize = 0;
    assert(items@.take(0) =~= Seq::<FeedItem>::empty());
    while k < items.len()
        invariant
            k <= items.len(),
            counts_ok(items@.take(k as int), counts@),
        decreases items.len() - k,
    {
        let ghost pre = items@.take(k as int);
        let ghost now = items@.take(k + 1);
        let ghost old_counts = counts@;
        proof {
            assert(now =~= pre.push(items@[k as int]));
        }
        let site = &items[k].site;
        let mut i: usize = 0;
        while i < counts.len() && !same_text(counts[i].0.as_str(), site.as_str())
            invariant
                i <= counts.len(),
                counts@ == old_counts,
                forall|j: int| 0 <= j < i ==> #[trigger] counts@[j].0@ != site@,
            decreases counts.len() - i,
        {
            i = i + 1;
        }
        let found = i < counts.len();
        proof {
            assert forall|s: Seq<char>| site_count(now, s) == site_count(pre, s) + if site@ == s {
                1nat
            } else {
                0nat
            } by {
                lemma_site_count_push(pre, items@[k as int], s);
            }
            lemma_site_count_bound(pre, site@);
        }
        if found {
            let c = counts[i].1;
            assert(c == site_count(pre, site@));
            let entry = (counts[i].0.clone(), c + 1);
            counts.set(i, entry);
            proof {
                assert forall|k2: int| 0 <= k2 < now.len() implies exists|j: int|
                    0 <= j < counts@.len() && #[trigger] counts@[j].0@ == #[trigger] now[k2].site@ by {
                    if k2 < pre.len() {
                        assert(now[k2] == pre[k2]);
                        let j = choose|j: int| 0 <= j < old_counts.len() && old_counts[j].0@ == pre[k2].site@;
                        assert(counts@[j].0@ == old_counts[j].0@);
                    } else {
                        assert(counts@[i as int].0@ == now[k2].site@);
                    }
                }
            }
        } else {
            let ghost before = counts@;
            counts.push((site.clone(), 1));
            proof {
                assert(site_count(pre, site@) == 0) by {
                    if site_count(pre, site@) > 0 {
                        lemma_count_pos_has(pre, site@);
                        let k2 = choose|k2: int| 0 <= k2 < pre.len() && pre[k2].site@ == site@;
                        let j = choose|j: int| 0 <= j < old_counts.len() && old_counts[j].0@ == pre[k2].site@;
                    }
                }
                assert forall|k2: int| 0 <= k2 < now.len() implies exists|j: int|
                    0 <= j < counts@.len() && #[trigger] counts@[j].0@ == #[trigger] now[k2].site@ by {
                    if k2 < pre.len() {
                        assert(now[k2] == pre[k2]);
                        let j = choose|j: int| 0 <= j < old_counts.len() && old_counts[j].0@ == pre[k2].site@;
                        assert(counts@[j] == old_counts[j]);
                    } else {
                        assert(counts@[old_counts.len() as int].0@ == now[k2].site@);
                    }
                }
            }
        }
        k = k + 1;
    }
    assert(items@.take(items.len() as int) =~= items@);
    counts
}

proof fn lemma_count_pos_has(items: Seq<FeedItem>, site: Seq<char>)
    requires
        site_count(items, site) > 0,
    ensures
        exists|k: int| 0 <= k < items.len() && items[k].site@ == site,
    decreases items.len(),
{
    if items.last().site@ == site {
        assert(items[items.len() - 1].site@ == site);
    } else {
        lemma_count_pos_has(items.drop_last(), site);
        let k = choose|k: int| 0 <= k < items.drop_last().len() && items.drop_last()[k].site@ == site;
        assert(items[k] == items.drop_last()[k]);
    }
}

} // verus!
