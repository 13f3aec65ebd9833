//! The crawl scheduler's decisions.
//!
//! The daemon loop alternates outside work (database calls, browser
//! crawls, sleeping) with decisions. The decisions live here: the cycle is
//! a state machine (`Scheduler::step`) that the application drives, doing
//! each action it returns and handing back what came of it; and the
//! per-crawl choices (what to notify, when to warn of a stale recipe) are
//! functions of the crawl's results.

use vstd::prelude::*;
use crate::config::{passes_filter, Config};
use crate::decimal::{decimal_of, push_decimal, push_signed_decimal, signed_decimal_of};
use crate::proto::FeedItem;
use crate::scan::has_infix;
use crate::text::{html_escaped, lowercase_of, push_html_escaped};

verus! {

/// Details of a `crawl_complete` event.
#[derive(Debug, Clone, Copy, PartialEq, Eq)]
pub struct CrawlCompleteEvent {
    pub items_found: usize,
    pub new_items: u32,
}

/// Details of a `crawl_error` event.
#[derive(Debug, Clone)]
pub struct CrawlErrorEvent {
    pub error: String,
}

// ---------------------------------------------------------------------------
// Digest messages and stale-recipe warnings
// ---------------------------------------------------------------------------

/// One line of a digest: the escaped title, linked when the item has a URL.
pub open spec fn digest_line(item: FeedItem) -> Seq<char> {
    if item.url@.len() == 0 {
        "- "@ + html_escaped(item.title@) + "\n"@
    } else {
        "- <a href=\""@ + item.url@ + "\">"@ + html_escaped(item.title@) + "</a>\n"@
    }
}

/// The digest lines of `items`, in order.
pub open spec fn digest_lines(items: Seq<FeedItem>) -> Seq<char>
    decreases items.len(),
{
    if items.len() == 0 {
        Seq::empty()
    } else {
        digest_lines(items.drop_last()) + digest_line(items.last())
    }
}

/// A digest message: a bold header with the site and the number of items,
/// a blank line, then one line per item.
pub open spec fn digest_text(site: Seq<char>, items: Seq<FeedItem>) -> Seq<char> {
    "<b>["@ + site + "] "@ + decimal_of(items.len()) + " new items</b>\n\n"@ + digest_lines(items)
}

/// Formats a digest message for Telegram (HTML).
pub fn format_digest(site: &str, items: &[FeedItem]) -> (r: String)
    ensures
        r@ == digest_text(site@, items@),
{
    let mut r = String::new();
    r.append("<b>[");
    r.append(site);
    r.append("] ");
    push_decimal(&mut r, items.len() as u64);
    r.append(" new items</b>\n\n");
    let ghost head = r@;
    let mut i: usize = 0;
    assert(items@.take(0) =~= Seq::<FeedItem>::empty());
    assert(r@ =~= head + digest_lines(items@.take(0)));
    while i < items.len()
        invariant
            i <= items.len(),
            r@ == head + digest_lines(items@.take(i as int)),
        decreases items.len() - i,
    {
        let item = &items[i];
        let ghost before = r@;
        if item.url.as_str().unicode_len() == 0 {
            r.append("- ");
            push_html_escaped(&mut r, item.title.as_str());
            r.append("\n");
        } else {
            r.append("- <a href=\"");
            r.append(item.url.as_str());
            r.append("\">");
            push_html_escaped(&mut r, item.title.as_str());
            r.append("</a>\n");
        }
        assert(r@ =~= before + digest_line(items@[i as int]));
        assert(items@.take(i + 1).drop_last() =~= items@.take(i as int));
        i = i + 1;
        assert(r@ =~= head + digest_lines(items@.take(i as int)));
    }
    assert(items@.take(items.len() as int) =~= items@);
    assert(r@ =~= digest_text(site@, items@));
    r
}

/// Empty crawls in a row after which a site's recipe is reported stale.
pub const STALE_AFTER_EMPTY_CRAWLS: i64 = 3;

/// The warning sent when a site's recipe has returned no items for
/// `streak` crawls in a row.
pub open spec fn stale_warning_text(site: Seq<char>, streak: i64) -> Seq<char> {
    "Warning: "@ + site + " has returned 0 items for "@ + signed_decimal_of(streak as int)
        + " consecutive crawls. The recipe may need updating."@
}

/// The stale-recipe warning for a site whose last crawl found nothing:
/// sent once `streak` reaches three.
pub fn stale_recipe_warning(site: &str, streak: i64) -> (r: Option<String>)
    ensures
        streak >= STALE_AFTER_EMPTY_CRAWLS <==> r is Some,
        r matches Some(m) ==> m@ == stale_warning_text(site@, streak),
{
    if streak < STALE_AFTER_EMPTY_CRAWLS {
        return None;
    }
    let mut m = String::new();
    m.append("Warning: ");
    m.append(site);
    m.append(" has returned 0 items for ");
    push_signed_decimal(&mut m, streak);
    m.append(" consecutive crawls. The recipe may need updating.");
    assert(m@ =~= stale_warning_text(site@, streak));
    Some(m)
}

// ---------------------------------------------------------------------------
// What a crawl notifies
// ---------------------------------------------------------------------------

/// The items of a crawl that are notified: those the store found new, and
/// that pass the keyword filter, in order.
pub open spec fn to_notify(keywords: Seq<Seq<char>>, items: Seq<FeedItem>, is_new: Seq<bool>) -> Seq<
    FeedItem,
>
    decreases items.len(),
{
    if items.len() == 0 || is_new.len() == 0 {
        Seq::empty()
    } else {
        let rest = to_notify(keywords, items.drop_last(), is_new.drop_last());
        if is_new.last() && passes_filter(keywords, items.last().title@, items.last().preview@) {
            rest.push(items.last())
        } else {
            rest
        }
    }
}

/// How the notified items of a crawl are delivered.
#[derive(Debug, Clone)]
pub enum Delivery {
    /// Nothing to notify.
    Nothing,
    /// One digest message.
    Digest(String),
    /// One message per item.
    EachItem(Vec<FeedItem>),
}

/// The outcome of a crawl: what it found, how many items it notifies, and
/// how they are delivered.
#[derive(Debug, Clone)]
pub struct CrawlOutcome {
    pub items_found: usize,
    pub new_items: u32,
    pub delivery: Delivery,
}

/// Decides what a crawl of `site` notifies, given its items and, for each,
/// whether the store found it new. Every item has been stored already;
/// only new items that pass the keyword filter are notified, in one digest
/// or one by one as the configuration says.
pub fn plan_delivery(config: &Config, site: &str, items: &Vec<FeedItem>, is_new: &Vec<bool>) -> (r:
    CrawlOutcome)
    requires
        items.len() == is_new.len(),
    ensures
        ({
            let sel = to_notify(config.keywords(), items@, is_new@);
            &&& r.items_found == items.len()
            &&& r.new_items == sel.len() as u32
            &&& (sel.len() == 0 ==> r.delivery is Nothing)
            &&& (sel.len() > 0 && config.digest_mode ==> (r.delivery matches Delivery::Digest(m)
                && m@ == digest_text(site@, sel)))
            &&& (sel.len() > 0 && !config.digest_mode ==> (r.delivery matches Delivery::EachItem(v)
                && v@ == sel))
        }),
{
    let ghost kws = config.keywords();
    let mut sel: Vec<FeedItem> = Vec::new();
    let mut i: usize = 0;
    assert(items@.take(0) =~= Seq::<FeedItem>::empty());
    while i < items.len()
        invariant
            i <= items.len(),
            items.len() == is_new.len(),
            kws == config.keywords(),
            sel@ == to_notify(kws, items@.take(i as int), is_new@.take(i as int)),
        decreases items.len() - i,
    {
        proof {
            assert(items@.take(i + 1).drop_last() =~= items@.take(i as int));
            assert(is_new@.take(i + 1).drop_last() =~= is_new@.take(i as int));
            assert(items@.take(i + 1).last() == items@[i as int]);
            assert(is_new@.take(i + 1).last() == is_new@[i as int]);
        }
        if is_new[i] && config.matches_filter(items[i].title.as_str(), items[i].preview.as_str()) {
            sel.push(items[i].clone());
        }
        i = i + 1;
    }
    assert(items@.take(items.len() as int) =~= items@);
    assert(is_new@.take(is_new.len() as int) =~= is_new@);
    let new_items = sel.len() as u32;
    if sel.len() == 0 {
        return CrawlOutcome { items_found: items.len(), new_items: 0, delivery: Delivery::Nothing };
    }
    if config.digest_mode {
        let msg = format_digest(site, sel.as_slice());
        CrawlOutcome { items_found: items.len(), new_items, delivery: Delivery::Digest(msg) }
    } else {
        CrawlOutcome { items_found: items.len(), new_items, delivery: Delivery::EachItem(sel) }
    }
}

// ---------------------------------------------------------------------------
// The crawl cycle
// ---------------------------------------------------------------------------

/// Crawl attempts per site and cycle.
pub const MAX_ATTEMPTS: u8 = 3;

/// Seconds to wait before retrying a failed crawl.
pub const RETRY_DELAY_SECS: u64 = 5;

/// Seconds a single crawl attempt may take.
pub const CRAWL_TIMEOUT_SECS: u64 = 120;

/// Days of event log kept; older entries are deleted at the start of a cycle.
pub const EVENT_RETENTION_DAYS: i64 = 30;

/// Where the cycle stands.
#[derive(Debug, Clone, PartialEq, Eq)]
pub enum Phase {
    /// Nothing done yet.
    Start,
    /// The event log cleanup was requested.
    CleaningUp,
    /// Attempt `attempt` at crawling site `site` was requested.
    Crawling { site: usize, attempt: u8 },
    /// Attempt `attempt` at site `site` failed; the retry delay was requested.
    Backoff { site: usize, attempt: u8 },
    /// Every attempt at site `site` failed; logging its error was requested.
    LoggingError { site: usize },
    /// Writing the Atom feed was requested.
    WritingFeed,
    /// The sleep until the next cycle was requested.
    Sleeping,
}

/// What came of the last action.
#[derive(Debug, Clone, PartialEq, Eq)]
pub enum Event {
    /// The action was carried out (its own errors are only warned about).
    Done,
    /// The crawl finished without error.
    CrawlSucceeded,
    /// The crawl failed with this message.
    CrawlFailed(String),
    /// The crawl took longer than its timeout.
    CrawlTimedOut,
}

/// What the application does next.
#[derive(Debug, Clone, PartialEq, Eq)]
pub enum Action {
    /// Delete event log entries older than this many days.
    CleanupEvents { retention_days: i64 },
    /// Crawl the enabled site with this index, within the timeout.
    CrawlSite { site: usize, timeout_secs: u64 },
    /// Wait this long before retrying.
    Wait { secs: u64 },
    /// Log the last error of a site that failed every attempt.
    LogCrawlError { site: usize, error: String },
    /// Write the Atom feed of this many recent items.
    WriteFeed { item_count: i64 },
    /// Sleep until the next cycle.
    SleepInterval { secs: u64 },
}

/// The view of an action: the error text as characters.
pub enum ActionV {
    CleanupEvents { retention_days: i64 },
    CrawlSite { site: usize, timeout_secs: u64 },
    Wait { secs: u64 },
    LogCrawlError { site: usize, error: Seq<char> },
    WriteFeed { item_count: i64 },
    SleepInterval { secs: u64 },
}

impl View for Action {
    type V = ActionV;

    open spec fn view(&self) -> ActionV {
        match self {
            Action::CleanupEvents { retention_days } => ActionV::CleanupEvents {
                retention_days: *retention_days,
            },
            Action::CrawlSite { site, timeout_secs } => ActionV::CrawlSite {
                site: *site,
                timeout_secs: *timeout_secs,
            },
            Action::Wait { secs } => ActionV::Wait { secs: *secs },
            Action::LogCrawlError { site, error } => ActionV::LogCrawlError {
                site: *site,
                error: error@,
            },
            Action::WriteFeed { item_count } => ActionV::WriteFeed { item_count: *item_count },
            Action::SleepInterval { secs } => ActionV::SleepInterval { secs: *secs },
        }
    }
}

/// The crawl cycle's state machine.
#[derive(Debug)]
pub struct Scheduler {
    n_sites: usize,
    feed_enabled: bool,
    feed_item_count: i64,
    interval_secs: u64,
    phase: Phase,
}

/// The settings the cycle runs with.
pub struct CycleSettings {
    pub n_sites: usize,
    pub feed_enabled: bool,
    pub feed_item_count: i64,
    pub interval_secs: u64,
}

/// The error recorded for a failed attempt.
pub open spec fn failure_message(e: Event) -> Seq<char> {
    match e {
        Event::CrawlFailed(m) => m@,
        _ => "crawl timed out after 120s"@,
    }
}

/// Whether an event reports a failed crawl attempt.
pub open spec fn is_failure(e: Event) -> bool {
    e is CrawlFailed || e is CrawlTimedOut
}

/// What follows when the sites from `next` on are left: the next site's
/// first attempt, or else the feed (when enabled), or else the sleep.
pub open spec fn after_site(s: CycleSettings, next: int) -> (Phase, ActionV) {
    if next < s.n_sites {
        (
            Phase::Crawling { site: next as usize, attempt: 1 },
            ActionV::CrawlSite { site: next as usize, timeout_secs: CRAWL_TIMEOUT_SECS },
        )
    } else if s.feed_enabled {
        (Phase::WritingFeed, ActionV::WriteFeed { item_count: s.feed_item_count })
    } else {
        (Phase::Sleeping, ActionV::SleepInterval { secs: s.interval_secs })
    }
}

/// The transition of the cycle: from phase `p`, on event `e`, to the next
/// phase and action. A failed attempt is retried after the delay until
/// the third; the third failure is logged and the cycle moves to the next
/// site. After the last site comes the feed (if enabled), then the sleep,
/// then the next cycle's cleanup.
pub open spec fn transition(s: CycleSettings, p: Phase, e: Event) -> (Phase, ActionV) {
    match p {
        Phase::Start => (
            Phase::CleaningUp,
            ActionV::CleanupEvents { retention_days: EVENT_RETENTION_DAYS },
        ),
        Phase::CleaningUp => after_site(s, 0),
        Phase::Crawling { site, attempt } => if is_failure(e) {
            if attempt < MAX_ATTEMPTS {
                (Phase::Backoff { site, attempt }, ActionV::Wait { secs: RETRY_DELAY_SECS })
            } else {
                (
                    Phase::LoggingError { site },
                    ActionV::LogCrawlError { site, error: failure_message(e) },
                )
            }
        } else {
            after_site(s, site + 1)
        },
        Phase::Backoff { site, attempt } => (
            Phase::Crawling { site, attempt: (attempt + 1) as u8 },
            ActionV::CrawlSite { site, timeout_secs: CRAWL_TIMEOUT_SECS },
        ),
        Phase::LoggingError { site } => after_site(s, site + 1),
        Phase::WritingFeed => (Phase::Sleeping, ActionV::SleepInterval { secs: s.interval_secs }),
        Phase::Sleeping => (
            Phase::CleaningUp,
            ActionV::CleanupEvents { retention_days: EVENT_RETENTION_DAYS },
        ),
    }
}

/// Whether a phase is consistent with the settings: site indices are in
/// range and attempts are between one and three (fewer than three while
/// backing off).
pub open spec fn phase_ok(s: CycleSettings, p: Phase) -> bool {
    match p {
        Phase::Crawling { site, attempt } => site < s.n_sites && 1 <= attempt <= MAX_ATTEMPTS,
        Phase::Backoff { site, attempt } => site < s.n_sites && 1 <= attempt < MAX_ATTEMPTS,
        Phase::LoggingError { site } => site < s.n_sites,
        _ => true,
    }
}

impl Scheduler {
    /// The settings the cycle runs with.
    pub closed spec fn settings(&self) -> CycleSettings {
        CycleSettings {
            n_sites: self.n_sites,
            feed_enabled: self.feed_enabled,
            feed_item_count: self.feed_item_count,
            interval_secs: self.interval_secs,
        }
    }

    /// Where the cycle stands.
    pub closed spec fn phase(&self) -> Phase {
        self.phase
    }

    #[verifier::type_invariant]
    spec fn inv(&self) -> bool {
        phase_ok(self.settings(), self.phase)
    }

    /// A scheduler for the configured sites, before its first cycle.
    pub fn new(config: &Config) -> (r: Self)
        ensures
            r.phase() == Phase::Start,
            r.settings() == (CycleSettings {
                n_sites: config.enabled_sites.len(),
                feed_enabled: config.feed_output_path is Some,
                feed_item_count: config.feed_item_count,
                interval_secs: config.crawl_interval_secs,
            }),
    {
        Scheduler {
            n_sites: config.enabled_sites.len(),
            feed_enabled: config.feed_output_path.is_some(),
            feed_item_count: config.feed_item_count,
            interval_secs: config.crawl_interval_secs,
            phase: Phase::Start,
        }
    }

    fn after_site(&self, next: usize) -> (r: (Phase, Action))
        requires
            next <= self.n_sites,
        ensures
            (r.0, r.1@) == after_site(self.settings(), next as int),
            phase_ok(self.settings(), r.0),
    {
        if next < self.n_sites {
            (
                Phase::Crawling { site: next, attempt: 1 },
                Action::CrawlSite { site: next, timeout_secs: CRAWL_TIMEOUT_SECS },
            )
        } else if self.feed_enabled {
            (Phase::WritingFeed, Action::WriteFeed { item_count: self.feed_item_count })
        } else {
            (Phase::Sleeping, Action::SleepInterval { secs: self.interval_secs })
        }
    }

    /// Advances the cycle with what came of the last action, and returns
    /// the next action. The first call, with any event, starts a cycle.
    pub fn step(&mut self, event: Event) -> (action: Action)
        ensures
            final(self).settings() == old(self).settings(),
            (final(self).phase(), action@) == transition(
                old(self).settings(),
                old(self).phase(),
                event,
            ),
    {
        proof {
            use_type_invariant(&*self);
        }
        let ghost e = event;
        let (phase, action) = match self.phase {
            Phase::Start => (Phase::CleaningUp, Action::CleanupEvents { retention_days: EVENT_RETENTION_DAYS }),
            Phase::CleaningUp => self.after_site(0),
            Phase::Crawling { site, attempt } => {
                let failed = match &event {
                    Event::CrawlFailed(_) => true,
                    Event::CrawlTimedOut => true,
                    _ => false,
                };
                if failed {
                    if attempt < MAX_ATTEMPTS {
                        (Phase::Backoff { site, attempt }, Action::Wait { secs: RETRY_DELAY_SECS })
                    } else {
                        let error = match event {
                            Event::CrawlFailed(m) => m,
                            _ => {
                                let mut m = String::new();
                                m.append("crawl timed out after 120s");
                                m
                            },
                        };
                        (Phase::LoggingError { site }, Action::LogCrawlError { site, error })
                    }
                } else {
                    self.after_site(site + 1)
                }
            },
            Phase::Backoff { site, attempt } => (
                Phase::Crawling { site, attempt: attempt + 1 },
                Action::CrawlSite { site, timeout_secs: CRAWL_TIMEOUT_SECS },
            ),
            Phase::LoggingError { site } => self.after_site(site + 1),
            Phase::WritingFeed => (Phase::Sleeping, Action::SleepInterval { secs: self.interval_secs }),
            Phase::Sleeping => (Phase::CleaningUp, Action::CleanupEvents { retention_days: EVENT_RETENTION_DAYS }),
        };
        self.phase = phase;
        action
    }
}

// ---------------------------------------------------------------------------
// Runs of the cycle
// ---------------------------------------------------------------------------

/// The phase reached and the actions requested when the events `evs` come
/// in one after another, from phase `p`.
pub open spec fn run(s: CycleSettings, p: Phase, evs: Seq<Event>) -> (Phase, Seq<ActionV>)
    decreases evs.len(),
{
    if evs.len() == 0 {
        (p, Seq::empty())
    } else {
        let (p1, a1) = transition(s, p, evs[0]);
        let (pn, rest) = run(s, p1, evs.drop_first());
        (pn, seq![a1] + rest)
    }
}

/// Whether no event of `evs` reports a failed crawl.
pub open spec fn no_failures(evs: Seq<Event>) -> bool {
    forall|i: int| 0 <= i < evs.len() ==> !is_failure(#[trigger] evs[i])
}

/// The actions that end a cycle: the feed, when enabled, then the sleep.
pub open spec fn finish_plan(s: CycleSettings) -> Seq<ActionV> {
    if s.feed_enabled {
        seq![
            ActionV::WriteFeed { item_count: s.feed_item_count },
            ActionV::SleepInterval { secs: s.interval_secs },
        ]
    } else {
        seq![ActionV::SleepInterval { secs: s.interval_secs }]
    }
}

/// The actions from site `k` on when every crawl succeeds: one crawl of
/// each remaining site, in order, then the end of the cycle.
pub open spec fn crawl_plan(s: CycleSettings, k: int) -> Seq<ActionV> {
    Seq::new(
        (s.n_sites - k) as nat,
        |i: int| ActionV::CrawlSite { site: (k + i) as usize, timeout_secs: CRAWL_TIMEOUT_SECS },
    ) + finish_plan(s)
}

/// The actions of a whole cycle when every crawl succeeds.
pub open spec fn cycle_plan(s: CycleSettings) -> Seq<ActionV> {
    seq![ActionV::CleanupEvents { retention_days: EVENT_RETENTION_DAYS }] + crawl_plan(s, 0)
}

proof fn lemma_sites_succeed(s: CycleSettings, k: int, evs: Seq<Event>)
    requires
        0 <= k <= s.n_sites,
        no_failures(evs),
        evs.len() + 1 == crawl_plan(s, k).len(),
    ensures
        ({
            let (p, a) = after_site(s, k);
            let (q, acts) = run(s, p, evs);
            q == Phase::Sleeping && seq![a] + acts == crawl_plan(s, k)
        }),
    decreases s.n_sites - k,
{
    let (p, a) = after_site(s, k);
    if k < s.n_sites {
        assert(!is_failure(evs[0]));
        let (p1, a1) = transition(s, p, evs[0]);
        assert((p1, a1) == after_site(s, k + 1));
        assert(no_failures(evs.drop_first())) by {
            assert forall|i: int| 0 <= i < evs.drop_first().len() implies !is_failure(
                #[trigger] evs.drop_first()[i],
            ) by {
                assert(evs.drop_first()[i] == evs[i + 1]);
            }
        }
        assert(crawl_plan(s, k) =~= seq![a] + crawl_plan(s, k + 1));
        lemma_sites_succeed(s, k + 1, evs.drop_first());
        let (q, acts) = run(s, p, evs);
        assert(acts =~= crawl_plan(s, k + 1));
    } else if s.feed_enabled {
        assert(evs.len() == 1);
        assert(evs.drop_first().len() == 0);
        reveal_with_fuel(run, 2);
        let (q, acts) = run(s, p, evs);
        assert(acts =~= seq![ActionV::SleepInterval { secs: s.interval_secs }]);
        assert(seq![a] + acts =~= crawl_plan(s, k));
    } else {
        assert(evs.len() == 0);
        assert(seq![a] + Seq::<ActionV>::empty() =~= crawl_plan(s, k));
    }
}

/// A cycle in which no crawl fails, started from the beginning or after
/// a sleep: the event log is cleaned up, every site is crawled once in
/// order, the feed is written when enabled, and the scheduler sleeps.
pub proof fn lemma_cycle_without_failures(s: CycleSettings, p: Phase, evs: Seq<Event>)
    requires
        p == Phase::Start || p == Phase::Sleeping,
        no_failures(evs),
        evs.len() == cycle_plan(s).len(),
    ensures
        run(s, p, evs) == (Phase::Sleeping, cycle_plan(s)),
{
    let evs1 = evs.drop_first();
    assert(no_failures(evs1.drop_first())) by {
        assert forall|i: int| 0 <= i < evs1.drop_first().len() implies !is_failure(
            #[trigger] evs1.drop_first()[i],
        ) by {
            assert(evs1.drop_first()[i] == evs[i + 2]);
        }
    }
    lemma_sites_succeed(s, 0, evs1.drop_first());
    reveal_with_fuel(run, 2);
    let (q, acts) = run(s, p, evs);
    assert(acts =~= cycle_plan(s));
}

/// A site that fails every attempt: it is crawled three times in all,
/// with the retry delay before the second and third attempt, and the error
/// of the last attempt is logged; after that the cycle goes on with the
/// next site, or ends.
pub proof fn lemma_site_fails_every_attempt(s: CycleSettings, site: usize, evs: Seq<Event>)
    requires
        site < s.n_sites,
        evs.len() == 6,
        is_failure(evs[0]),
        is_failure(evs[2]),
        is_failure(evs[4]),
    ensures
        run(s, Phase::Crawling { site, attempt: 1 }, evs) == (
            after_site(s, site + 1).0,
            seq![
                ActionV::Wait { secs: RETRY_DELAY_SECS },
                ActionV::CrawlSite { site, timeout_secs: CRAWL_TIMEOUT_SECS },
                ActionV::Wait { secs: RETRY_DELAY_SECS },
                ActionV::CrawlSite { site, timeout_secs: CRAWL_TIMEOUT_SECS },
                ActionV::LogCrawlError { site, error: failure_message(evs[4]) },
                after_site(s, site + 1).1,
            ],
        ),
{
    let e1 = evs.drop_first();
    let e2 = e1.drop_first();
    let e3 = e2.drop_first();
    let e4 = e3.drop_first();
    let e5 = e4.drop_first();
    assert(e5.drop_first().len() == 0);
    assert(e2[0] == evs[2]);
    assert(e4[0] == evs[4]);
    reveal_with_fuel(run, 7);
    let (q, acts) = run(s, Phase::Crawling { site, attempt: 1 }, evs);
    assert(acts =~= seq![
        ActionV::Wait { secs: RETRY_DELAY_SECS },
        ActionV::CrawlSite { site, timeout_secs: CRAWL_TIMEOUT_SECS },
        ActionV::Wait { secs: RETRY_DELAY_SECS },
        ActionV::CrawlSite { site, timeout_secs: CRAWL_TIMEOUT_SECS },
        ActionV::LogCrawlError { site, error: failure_message(evs[4]) },
        after_site(s, site + 1).1,
    ]);
}

/// A failed attempt that is not the last is retried: after the delay the
/// same site is crawled again, and a success then moves the cycle on to
/// the next site as a first-time success would.
pub proof fn lemma_retry_then_success(
    s: CycleSettings,
    site: usize,
    attempt: u8,
    evs: Seq<Event>,
)
    requires
        site < s.n_sites,
        1 <= attempt < MAX_ATTEMPTS,
        evs.len() == 3,
        is_failure(evs[0]),
        !is_failure(evs[2]),
    ensures
        run(s, Phase::Crawling { site, attempt }, evs) == (
            after_site(s, site + 1).0,
            seq![
                ActionV::Wait { secs: RETRY_DELAY_SECS },
                ActionV::CrawlSite { site, timeout_secs: CRAWL_TIMEOUT_SECS },
                after_site(s, site + 1).1,
            ],
        ),
{
    let e1 = evs.drop_first();
    let e2 = e1.drop_first();
    assert(e2.drop_first().len() == 0);
    assert(e2[0] == evs[2]);
    reveal_with_fuel(run, 4);
    let (q, acts) = run(s, Phase::Crawling { site, attempt }, evs);
    assert(acts =~= seq![
        ActionV::Wait { secs: RETRY_DELAY_SECS },
        ActionV::CrawlSite { site, timeout_secs: CRAWL_TIMEOUT_SECS },
        after_site(s, site + 1).1,
    ]);
}

/// Only new items that pass the keyword filter are notified, each at most
/// as often as the crawl found it: no item the store had seen is notified
/// again, nothing is notified when nothing is new, and with no keywords
/// every new item is notified, in the order found.
pub proof fn lemma_notified_items(kw: Seq<Seq<char>>, items: Seq<FeedItem>, is_new: Seq<bool>)
    requires
        items.len() == is_new.len(),
    ensures
        to_notify(kw, items, is_new).len() <= items.len(),
        forall|j: int|
            0 <= j < to_notify(kw, items, is_new).len() ==> exists|i: int|
                0 <= i < items.len() && is_new[i] && items[i] == #[trigger] to_notify(
                    kw,
                    items,
                    is_new,
                )[j] && passes_filter(kw, items[i].title@, items[i].preview@),
        (forall|i: int| 0 <= i < is_new.len() ==> !#[trigger] is_new[i]) ==> to_notify(
            kw,
            items,
            is_new,
        ).len() == 0,
        (kw.len() == 0 && forall|i: int| 0 <= i < is_new.len() ==> #[trigger] is_new[i])
            ==> to_notify(kw, items, is_new) == items,
    decreases items.len(),
{
    if items.len() > 0 {
        let its = items.drop_last();
        let nw = is_new.drop_last();
        lemma_notified_items(kw, its, nw);
        let rest = to_notify(kw, its, nw);
        let sel = to_notify(kw, items, is_new);
        let last = items.len() - 1;
        assert forall|j: int| 0 <= j < sel.len() implies exists|i: int|
            0 <= i < items.len() && is_new[i] && items[i] == #[trigger] sel[j] && passes_filter(
                kw,
                items[i].title@,
                items[i].preview@,
            ) by {
            if j < rest.len() {
                assert(sel[j] == rest[j]);
                let i = choose|i: int|
                    0 <= i < its.len() && nw[i] && its[i] == #[trigger] rest[j] && passes_filter(
                        kw,
                        its[i].title@,
                        its[i].preview@,
                    );
                assert(items[i] == its[i] && is_new[i] == nw[i]);
            } else {
                assert(is_new[last] && items[last] == sel[j]);
            }
        }
        if forall|i: int| 0 <= i < is_new.len() ==> !#[trigger] is_new[i] {
            assert(!is_new[last]);
            assert forall|i: int| 0 <= i < nw.len() implies !#[trigger] nw[i] by {
                assert(nw[i] == is_new[i]);
            }
        }
        if kw.len() == 0 && forall|i: int| 0 <= i < is_new.len() ==> #[trigger] is_new[i] {
            assert(is_new[last]);
            assert forall|i: int| 0 <= i < nw.len() implies #[trigger] nw[i] by {
                assert(nw[i] == is_new[i]);
            }
            assert(sel =~= items);
        }
    } else {
        assert(to_notify(kw, items, is_new) =~= items);
    }
}

// ---------------------------------------------------------------------------
// Any cycle
// ---------------------------------------------------------------------------

/// The number of failed attempts before the first success among the first
/// three outcomes `o` of a site's crawls, or three when all three fail.
pub open spec fn failures_before_success(o: Seq<Event>) -> int {
    if !is_failure(o[0]) {
        0
    } else if !is_failure(o[1]) {
        1
    } else if !is_failure(o[2]) {
        2
    } else {
        3
    }
}

/// The events one site's crawls bring in, given the outcomes `o` of its
/// attempts: each failed attempt short of the third is followed by the end
/// of the retry delay; the attempts stop at the first success; after a
/// third failure comes the end of logging its error.
pub open spec fn site_events(o: Seq<Event>) -> Seq<Event> {
    let f = failures_before_success(o);
    if f == 0 {
        seq![o[0]]
    } else if f == 1 {
        seq![o[0], Event::Done, o[1]]
    } else if f == 2 {
        seq![o[0], Event::Done, o[1], Event::Done, o[2]]
    } else {
        seq![o[0], Event::Done, o[1], Event::Done, o[2], Event::Done]
    }
}

/// The actions that follow a site's first crawl request, up to the request
/// for what comes after the site: a retry delay and another crawl for each
/// failed attempt short of the third, and, after a third failure, the
/// logging of its error.
pub open spec fn site_actions(site: usize, o: Seq<Event>) -> Seq<ActionV> {
    let f = failures_before_success(o);
    let w = ActionV::Wait { secs: RETRY_DELAY_SECS };
    let c = ActionV::CrawlSite { site, timeout_secs: CRAWL_TIMEOUT_SECS };
    if f == 0 {
        Seq::empty()
    } else if f == 1 {
        seq![w, c]
    } else if f == 2 {
        seq![w, c, w, c]
    } else {
        seq![w, c, w, c, ActionV::LogCrawlError { site, error: failure_message(o[2]) }]
    }
}

/// The events of the sites from `k` on, given each site's outcomes.
pub open spec fn sites_events(os: Seq<Seq<Event>>, k: int) -> Seq<Event>
    decreases os.len() - k,
{
    if 0 <= k < os.len() {
        site_events(os[k]) + sites_events(os, k + 1)
    } else {
        Seq::empty()
    }
}

/// The events that end a cycle: the end of writing the feed, when enabled.
pub open spec fn finish_events(s: CycleSettings) -> Seq<Event> {
    if s.feed_enabled {
        seq![Event::Done]
    } else {
        Seq::empty()
    }
}

/// The actions of the sites from `k` on, then the end of the cycle.
pub open spec fn sites_plan(s: CycleSettings, os: Seq<Seq<Event>>, k: int) -> Seq<ActionV>
    decreases os.len() - k,
{
    if 0 <= k < os.len() {
        seq![ActionV::CrawlSite { site: k as usize, timeout_secs: CRAWL_TIMEOUT_SECS }]
            + site_actions(k as usize, os[k]) + sites_plan(s, os, k + 1)
    } else {
        finish_plan(s)
    }
}

/// Running two event sequences one after the other.
pub proof fn lemma_run_append(s: CycleSettings, p: Phase, a: Seq<Event>, b: Seq<Event>)
    ensures
        run(s, p, a + b) == (
            run(s, run(s, p, a).0, b).0,
            run(s, p, a).1 + run(s, run(s, p, a).0, b).1,
        ),
    decreases a.len(),
{
    if a.len() == 0 {
        assert(a + b =~= b);
        assert(run(s, p, a).1 + run(s, p, b).1 =~= run(s, p, b).1);
    } else {
        let (p1, a1) = transition(s, p, a[0]);
        assert((a + b)[0] == a[0]);
        assert((a + b).drop_first() =~= a.drop_first() + b);
        lemma_run_append(s, p1, a.drop_first(), b);
        let q = run(s, p1, a.drop_first()).0;
        assert(run(s, p, a + b).1 =~= seq![a1] + (run(s, p1, a.drop_first()).1 + run(s, q, b).1));
    }
}

proof fn lemma_site_run(s: CycleSettings, site: usize, o: Seq<Event>)
    requires
        site < s.n_sites,
        o.len() == 3,
    ensures
        run(s, Phase::Crawling { site, attempt: 1 }, site_events(o)) == (
            after_site(s, site + 1).0,
            site_actions(site, o) + seq![after_site(s, site + 1).1],
        ),
{
    reveal_with_fuel(run, 7);
    let e = site_events(o);
    let f = failures_before_success(o);
    let (q, acts) = run(s, Phase::Crawling { site, attempt: 1 }, e);
    if f == 0 {
        assert(e.drop_first().len() == 0);
    } else if f == 1 {
        assert(e.drop_first().drop_first().drop_first().len() == 0);
    } else if f == 2 {
        assert(e.drop_first().drop_first().drop_first().drop_first().drop_first().len() == 0);
    } else {
        assert(e.drop_first().drop_first().drop_first().drop_first().drop_first().drop_first().len()
            == 0);
    }
    assert(acts =~= site_actions(site, o) + seq![after_site(s, site + 1).1]);
}

proof fn lemma_sites_run(s: CycleSettings, os: Seq<Seq<Event>>, k: int)
    requires
        os.len() == s.n_sites,
        forall|j: int| 0 <= j < os.len() ==> #[trigger] os[j].len() == 3,
        0 <= k <= os.len(),
    ensures
        after_site(s, k).1 == sites_plan(s, os, k)[0],
        sites_plan(s, os, k).len() >= 1,
        run(s, after_site(s, k).0, sites_events(os, k) + finish_events(s)) == (
            Phase::Sleeping,
            sites_plan(s, os, k).drop_first(),
        ),
    decreases os.len() - k,
{
    if k < os.len() {
        let p = after_site(s, k).0;
        assert(p == Phase::Crawling { site: k as usize, attempt: 1 });
        lemma_site_run(s, k as usize, os[k]);
        lemma_sites_run(s, os, k + 1);
        let rest = sites_events(os, k + 1) + finish_events(s);
        assert(sites_events(os, k) + finish_events(s) =~= site_events(os[k]) + rest);
        lemma_run_append(s, p, site_events(os[k]), rest);
        let tail = sites_plan(s, os, k + 1);
        assert(seq![after_site(s, k + 1).1] + tail.drop_first() =~= tail);
        assert(sites_plan(s, os, k).drop_first() =~= site_actions(k as usize, os[k]) + tail);
        assert(site_actions(k as usize, os[k]) + seq![after_site(s, k + 1).1] + tail.drop_first()
            =~= site_actions(k as usize, os[k]) + tail);
    } else {
        reveal_with_fuel(run, 2);
        assert(sites_events(os, k) =~= Seq::<Event>::empty());
        assert(sites_events(os, k) + finish_events(s) =~= finish_events(s));
        if s.feed_enabled {
            assert(finish_events(s).drop_first().len() == 0);
            let (q, acts) = run(s, after_site(s, k).0, finish_events(s));
            assert(acts =~= finish_plan(s).drop_first());
        } else {
            assert(finish_plan(s).drop_first() =~= Seq::<ActionV>::empty());
        }
    }
}

/// Any cycle, started from the beginning or after a sleep: the event log is
/// cleaned up; then each site in order is crawled until an attempt
/// succeeds, at most three times, with the retry delay between attempts,
/// and the error of the third failed attempt is logged (once); then the
/// feed is written when enabled, and the scheduler sleeps. `os[k]` holds
/// the outcomes of site `k`'s attempts (those after its first success are
/// not used); `e0` and `e1` are whatever the start and the cleanup report.
pub proof fn lemma_any_cycle(
    s: CycleSettings,
    p: Phase,
    e0: Event,
    e1: Event,
    os: Seq<Seq<Event>>,
)
    requires
        p == Phase::Start || p == Phase::Sleeping,
        os.len() == s.n_sites,
        forall|j: int| 0 <= j < os.len() ==> #[trigger] os[j].len() == 3,
    ensures
        run(s, p, seq![e0, e1] + sites_events(os, 0) + finish_events(s)) == (
            Phase::Sleeping,
            seq![ActionV::CleanupEvents { retention_days: EVENT_RETENTION_DAYS }] + sites_plan(
                s,
                os,
                0,
            ),
        ),
{
    lemma_sites_run(s, os, 0);
    let rest = sites_events(os, 0) + finish_events(s);
    let evs = seq![e0, e1] + sites_events(os, 0) + finish_events(s);
    assert(evs =~= seq![e0, e1] + rest);
    lemma_run_append(s, p, seq![e0, e1], rest);
    reveal_with_fuel(run, 3);
    let (q, acts) = run(s, p, seq![e0, e1]);
    assert(seq![e0, e1].drop_first().drop_first().len() == 0);
    assert(q == after_site(s, 0).0);
    assert(acts =~= seq![
        ActionV::CleanupEvents { retention_days: EVENT_RETENTION_DAYS },
        after_site(s, 0).1,
    ]);
    let plan = sites_plan(s, os, 0);
    assert(acts + plan.drop_first() =~= seq![
        ActionV::CleanupEvents { retention_days: EVENT_RETENTION_DAYS },
    ] + plan);
}

/// Whether an item is wanted by the keyword filter: there are no keywords,
/// or one of them occurs in the lowercased title or in the lowercased
/// preview.
pub open spec fn keyword_wanted(kw: Seq<Seq<char>>, title: Seq<char>, preview: Seq<char>) -> bool {
    kw.len() == 0 || exists|j: int|
        0 <= j < kw.len() && (#[trigger] has_infix(lowercase_of(title), kw[j]) || has_infix(
            lowercase_of(preview),
            kw[j],
        ))
}

proof fn lemma_wanted_is_filter(kw: Seq<Seq<char>>, title: Seq<char>, preview: Seq<char>)
    ensures
        keyword_wanted(kw, title, preview) == passes_filter(kw, title, preview),
{
    if kw.len() > 0 {
        if keyword_wanted(kw, title, preview) {
            let j = choose|j: int|
                0 <= j < kw.len() && (#[trigger] has_infix(lowercase_of(title), kw[j])
                    || has_infix(lowercase_of(preview), kw[j]));
            assert(crate::config::keyword_hit(kw[j], title, preview));
        }
        if passes_filter(kw, title, preview) {
            let i = choose|i: int|
                0 <= i < kw.len() && #[trigger] crate::config::keyword_hit(kw[i], title, preview);
            assert(has_infix(lowercase_of(title), kw[i]) || has_infix(lowercase_of(preview), kw[i]));
        }
    }
}

/// The items a crawl notifies are exactly the items that the store found
/// new and that the keyword filter wants (a keyword in the title or in the
/// preview), each once, in the order found: the returned positions pick
/// them out of `items`.
pub proof fn lemma_notified_exactly(kw: Seq<Seq<char>>, items: Seq<FeedItem>, is_new: Seq<bool>) -> (idx:
    Seq<int>)
    requires
        items.len() == is_new.len(),
    ensures
        idx.len() == to_notify(kw, items, is_new).len(),
        forall|j: int|
            0 <= j < idx.len() ==> 0 <= #[trigger] idx[j] < items.len() && to_notify(
                kw,
                items,
                is_new,
            )[j] == items[idx[j]] && is_new[idx[j]] && keyword_wanted(
                kw,
                items[idx[j]].title@,
                items[idx[j]].preview@,
            ),
        forall|j: int, k: int| 0 <= j < k < idx.len() ==> idx[j] < idx[k],
        forall|i: int|
            0 <= i < items.len() && #[trigger] is_new[i] && keyword_wanted(
                kw,
                items[i].title@,
                items[i].preview@,
            ) ==> exists|j: int| 0 <= j < idx.len() && idx[j] == i,
    decreases items.len(),
{
    if items.len() == 0 {
        Seq::empty()
    } else {
        let n = items.len() - 1;
        let its = items.drop_last();
        let nw = is_new.drop_last();
        let idx0 = lemma_notified_exactly(kw, its, nw);
        let rest = to_notify(kw, its, nw);
        let sel = to_notify(kw, items, is_new);
        lemma_wanted_is_filter(kw, items[n].title@, items[n].preview@);
        assert(items.last() == items[n] && is_new.last() == is_new[n]);
        let take = is_new[n] && passes_filter(kw, items[n].title@, items[n].preview@);
        let idx = if take { idx0.push(n) } else { idx0 };
        assert forall|j: int| 0 <= j < idx.len() implies 0 <= #[trigger] idx[j] < items.len()
            && sel[j] == items[idx[j]] && is_new[idx[j]] && keyword_wanted(
            kw,
            items[idx[j]].title@,
            items[idx[j]].preview@,
        ) by {
            if j < idx0.len() {
                assert(idx[j] == idx0[j]);
                assert(sel[j] == rest[j]);
                assert(items[idx0[j]] == its[idx0[j]] && is_new[idx0[j]] == nw[idx0[j]]);
            }
        }
        assert forall|j: int, k: int| 0 <= j < k < idx.len() implies idx[j] < idx[k] by {
            if k < idx0.len() {
                assert(idx[j] == idx0[j] && idx[k] == idx0[k]);
            } else {
                assert(idx[j] == idx0[j]);
                assert(0 <= idx0[j] < its.len());
            }
        }
        assert forall|i: int|
            0 <= i < items.len() && #[trigger] is_new[i] && keyword_wanted(
                kw,
                items[i].title@,
                items[i].preview@,
            ) implies exists|j: int| 0 <= j < idx.len() && idx[j] == i by {
            if i < n {
                assert(nw[i] == is_new[i] && its[i] == items[i]);
                let j = choose|j: int| 0 <= j < idx0.len() && idx0[j] == i;
                assert(idx[j] == idx0[j]);
            } else {
                assert(take);
                assert(idx[idx0.len() as int] == n);
            }
        }
        idx
    }
}

} // verus!
