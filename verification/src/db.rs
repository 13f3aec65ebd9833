//! The rows that the feed store keeps, and the decisions the store makes
//! about them: whether an inserted item counts as new, and how long a run
//! of empty crawls a site has had.
//!
//! The store itself (SQLite) is driven by the application; these types are
//! what it reads and writes.

use vstd::prelude::*;
use crate::scheduler::CrawlCompleteEvent;

verus! {

/// A feed item stored for deduplication and history.
#[derive(Debug, Clone)]
pub struct FeedItem {
    pub id: i32,
    pub site: String,
    pub external_id: String,
    pub title: String,
    pub url: String,
    pub preview: String,
    pub raw_json: String,
    pub created_at: String,
}

/// An entry of the event log.
#[derive(Debug, Clone)]
pub struct EventLogEntry {
    pub id: i32,
    pub event_type: String,
    pub site: String,
    pub details: String,
    pub created_at: String,
}

/// A stored crawl snapshot.
#[derive(Debug, Clone)]
pub struct CrawlSnapshotRow {
    pub id: i32,
    pub site: String,
    pub crawled_at: String,
    pub item_count: i32,
    pub items_json: String,
}

/// Whether an item should be notified after an insert-or-ignore:
/// a brand-new item always is; one that existed before is never notified
/// again under a window of 0 (forever), and otherwise only when its stored
/// row is older than the window (`fresh` is false).
pub open spec fn is_new_spec(existed_before: bool, dedup_window_hours: u64, fresh: bool) -> bool {
    !existed_before || (dedup_window_hours != 0 && !fresh)
}

/// Whether the store must look up the freshness of the stored row to
/// decide: only for an item that existed before, under a non-zero window.
pub fn needs_freshness_check(existed_before: bool, dedup_window_hours: u64) -> (r: bool)
    ensures
        r == (existed_before && dedup_window_hours != 0),
{
    existed_before && dedup_window_hours != 0
}

/// Decides whether an inserted item is new. `fresh` says whether the stored
/// row was created within the window; it is consulted only when
/// `needs_freshness_check` holds.
pub fn item_is_new(existed_before: bool, dedup_window_hours: u64, fresh: bool) -> (r: bool)
    ensures
        r == is_new_spec(existed_before, dedup_window_hours, fresh),
{
    if !existed_before {
        true
    } else if dedup_window_hours == 0 {
        false
    } else {
        !fresh
    }
}

/// What an insert-or-ignore of an item reports: whether the row was
/// inserted (no row for the item existed before) and whether the item is
/// to be notified (`is_new_spec`).
pub fn insert_outcome(existed_before: bool, dedup_window_hours: u64, fresh: bool) -> (r: (
    bool,
    bool,
))
    ensures
        r.0 == !existed_before,
        r.1 == is_new_spec(existed_before, dedup_window_hours, fresh),
{
    (!existed_before, item_is_new(existed_before, dedup_window_hours, fresh))
}

/// The number of leading `crawl_complete` events (most recent first) that
/// found no items; details that could not be read are passed over, and the
/// count stops at the first crawl that found items.
pub open spec fn empty_streak(details: Seq<Option<CrawlCompleteEvent>>) -> nat
    decreases details.len(),
{
    if details.len() == 0 {
        0
    } else {
        match details[0] {
            Some(e) => if e.items_found == 0 {
                1 + empty_streak(details.drop_first())
            } else {
                0
            },
            None => empty_streak(details.drop_first()),
        }
    }
}

proof fn lemma_empty_streak_bound(details: Seq<Option<CrawlCompleteEvent>>)
    ensures
        empty_streak(details) <= details.len(),
    decreases details.len(),
{
    if details.len() > 0 {
        lemma_empty_streak_bound(details.drop_first());
    }
}

/// Counts consecutive empty crawls from the parsed details of a site's
/// recent `crawl_complete` events, most recent first.
pub fn count_empty_streak(details: &Vec<Option<CrawlCompleteEvent>>) -> (r: i64)
    requires
        details.len() <= i64::MAX,
    ensures
        r == empty_streak(details@),
{
    let n = details.len();
    let mut i: usize = n;
    let mut count: i64 = 0;
    proof {
        assert(details@.skip(n as int) =~= Seq::<Option<CrawlCompleteEvent>>::empty());
    }
    // Walk from the oldest event back to the newest, so that a non-empty
    // crawl resets the count kept so far.
    while i > 0
        invariant
            n == details.len(),
            n <= i64::MAX,
            i <= n,
            count == empty_streak(details@.skip(i as int)),
            count <= n - i,
        decreases i,
    {
        i = i - 1;
        let ghost rest = details@.skip(i + 1);
        proof {
            assert(details@.skip(i as int).drop_first() =~= rest);
            assert(details@.skip(i as int)[0] == details@[i as int]);
        }
        match &details[i] {
            Some(e) => {
                if e.items_found == 0 {
                    count = count + 1;
                } else {
                    count = 0;
                }
            },
            None => {},
        }
    }
    assert(details@.skip(0) =~= details@);
    count
}

/// The dedup rules: a brand-new item is always notified; under a window
/// of 0 an item seen before is never notified again; under any other
/// window it is notified again exactly when its stored row has aged out of
/// the window; and where no freshness lookup is needed, the answer does not
/// depend on it.
pub proof fn lemma_dedup_rules(existed_before: bool, dedup_window_hours: u64, fresh: bool)
    ensures
        !existed_before ==> is_new_spec(existed_before, dedup_window_hours, fresh),
        existed_before && dedup_window_hours == 0 ==> !is_new_spec(
            existed_before,
            dedup_window_hours,
            fresh,
        ),
        existed_before && dedup_window_hours != 0 ==> (is_new_spec(
            existed_before,
            dedup_window_hours,
            fresh,
        ) <==> !fresh),
        !(existed_before && dedup_window_hours != 0) ==> is_new_spec(
            existed_before,
            dedup_window_hours,
            true,
        ) == is_new_spec(existed_before, dedup_window_hours, false),
{
}

/// A crawl that found items ends a run of empty crawls; an empty crawl
/// lengthens the run that follows it by one; a detail that cannot be read
/// changes nothing. So three empty crawls in a row, the latest first, make
/// a run of at least three.
pub proof fn lemma_empty_streak_steps(
    e: CrawlCompleteEvent,
    rest: Seq<Option<CrawlCompleteEvent>>,
)
    ensures
        e.items_found > 0 ==> empty_streak(seq![Some(e)] + rest) == 0,
        e.items_found == 0 ==> empty_streak(seq![Some(e)] + rest) == 1 + empty_streak(rest),
        empty_streak(seq![None] + rest) == empty_streak(rest),
        e.items_found == 0 ==> empty_streak(seq![Some(e), Some(e), Some(e)] + rest) >= 3,
{
    assert((seq![Some(e)] + rest).drop_first() =~= rest);
    assert((seq![None] + rest).drop_first() =~= rest);
    let three = seq![Some(e), Some(e), Some(e)] + rest;
    assert(three.drop_first() =~= seq![Some(e), Some(e)] + rest);
    assert(three.drop_first().drop_first() =~= seq![Some(e)] + rest);
    assert(three.drop_first().drop_first().drop_first() =~= rest);
    assert(three[0] == Some(e) && three.drop_first()[0] == Some(e)
        && three.drop_first().drop_first()[0] == Some(e));
    if e.items_found == 0 {
        assert(empty_streak(three.drop_first().drop_first()) == 1 + empty_streak(rest));
        assert(empty_streak(three.drop_first()) == 2 + empty_streak(rest));
        assert(empty_streak(three) == 3 + empty_streak(rest));
    }
}

} // verus!
