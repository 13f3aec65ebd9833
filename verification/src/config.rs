//! Application configuration: reading the settings and answering the
//! questions the crawler asks of them.

use vstd::prelude::*;
use crate::decimal::{parse_i64, parse_i64_spec, parse_u64, parse_u64_spec};
use crate::scan::{
    contains_chars, has_infix, split_chars, split_first, split_on, split_once, trim, trimmed,
    views,
};
use crate::text::{chars_of, lowercase_of, same_text, string_of, to_lowercase};

verus! {

// ---------------------------------------------------------------------------
// Per-site dedup window overrides
// ---------------------------------------------------------------------------

/// The map that a list of (site, hours) pairs describes: a later pair for
/// the same site replaces an earlier one.
pub open spec fn pairs_map(pairs: Seq<(String, u64)>) -> Map<Seq<char>, u64>
    decreases pairs.len(),
{
    if pairs.len() == 0 {
        Map::empty()
    } else {
        pairs_map(pairs.drop_last()).insert(pairs.last().0@, pairs.last().1)
    }
}

/// Per-site dedup window overrides, in hours. Viewed as a map from site name.
#[derive(Debug, Clone)]
pub struct DedupOverrides {
    pairs: Vec<(String, u64)>,
}

impl View for DedupOverrides {
    type V = Map<Seq<char>, u64>;

    closed spec fn view(&self) -> Map<Seq<char>, u64> {
        pairs_map(self.pairs@)
    }
}

proof fn lemma_pairs_map_miss(pairs: Seq<(String, u64)>, i: int, key: Seq<char>)
    requires
        0 <= i <= pairs.len(),
        forall|j: int| i <= j < pairs.len() ==> #[trigger] pairs[j].0@ != key,
    ensures
        pairs_map(pairs).contains_key(key) == pairs_map(pairs.take(i)).contains_key(key),
        pairs_map(pairs).contains_key(key) ==> pairs_map(pairs)[key] == pairs_map(
            pairs.take(i),
        )[key],
    decreases pairs.len() - i,
{
    if i == pairs.len() {
        assert(pairs.take(i) =~= pairs);
    } else {
        let d = pairs.drop_last();
        assert(pairs[pairs.len() - 1].0@ != key);
        assert forall|j: int| i <= j < d.len() implies #[trigger] d[j].0@ != key by {
            assert(d[j] == pairs[j]);
        }
        lemma_pairs_map_miss(d, i, key);
        assert(d.take(i) =~= pairs.take(i));
    }
}

impl DedupOverrides {
    /// No overrides.
    pub fn new() -> (r: Self)
        ensures
            r@ == Map::<Seq<char>, u64>::empty(),
    {
        DedupOverrides { pairs: Vec::new() }
    }

    /// Sets the window for `site`, replacing any earlier one.
    pub fn insert(&mut self, site: String, hours: u64)
        ensures
            final(self)@ == old(self)@.insert(site@, hours),
    {
        let ghost key = site@;
        self.pairs.push((site, hours));
        assert(self.pairs@.drop_last() =~= old(self).pairs@);
    }

    /// The window set for `site`, if any.
    pub fn get(&self, site: &str) -> (r: Option<u64>)
        ensures
            r == (if self@.contains_key(site@) {
                Some(self@[site@])
            } else {
                None
            }),
    {
        let n = self.pairs.len();
        let mut i: usize = n;
        while i > 0
            invariant
                n == self.pairs.len(),
                i <= n,
                forall|j: int| i <= j < n ==> #[trigger] self.pairs@[j].0@ != site@,
            decreases i,
        {
            i = i - 1;
            if same_text(self.pairs[i].0.as_str(), site) {
                proof {
                    let p = self.pairs@;
                    lemma_pairs_map_miss(p, i + 1, site@);
                    assert(p.take(i + 1).drop_last() =~= p.take(i as int));
                    assert(p.take(i + 1).last() == p[i as int]);
                }
                return Some(self.pairs[i].1);
            }
        }
        proof {
            lemma_pairs_map_miss(self.pairs@, 0, site@);
            assert(self.pairs@.take(0) =~= Seq::<(String, u64)>::empty());
        }
        None
    }
}

// ---------------------------------------------------------------------------
// The configuration
// ---------------------------------------------------------------------------

/// Application configuration. All fields but the optional ones are required;
/// a missing value is an error at startup (fail-fast).
#[derive(Debug, Clone)]
pub struct Config {
    pub cdp_endpoint: String,
    pub database_url: String,
    pub telegram_bot_token: String,
    pub telegram_chat_id: String,
    pub crawl_interval_secs: u64,
    pub enabled_sites: Vec<String>,
    /// Optional: path to write Atom feed XML. Empty/unset = disabled.
    pub feed_output_path: Option<String>,
    /// Number of items to include in the Atom feed. Default: 100.
    pub feed_item_count: i64,
    /// Optional keyword filter. Only items matching a keyword are sent to Telegram.
    /// All items are still saved to DB for snapshots/dump. Empty = no filter (send all).
    pub filter_keywords: Vec<String>,
    /// Digest mode: batch new items into a single Telegram message per crawl cycle
    /// instead of one message per item.
    pub digest_mode: bool,
    /// Default dedup window in hours. 0 = forever (never re-notify). Default: 0.
    pub dedup_window_hours: u64,
    /// Per-site dedup window overrides. Key: site name, Value: hours.
    pub dedup_overrides: DedupOverrides,
}

/// The texts of a vector of strings.
pub open spec fn string_views(v: Seq<String>) -> Seq<Seq<char>> {
    v.map_values(|s: String| s@)
}

/// Whether a keyword occurs in the lowercased title or preview.
pub open spec fn keyword_hit(keyword: Seq<char>, title: Seq<char>, preview: Seq<char>) -> bool {
    has_infix(lowercase_of(title), keyword) || has_infix(lowercase_of(preview), keyword)
}

/// Whether an item passes the keyword filter: there are no keywords, or
/// one of them occurs in the lowercased title or preview.
pub open spec fn passes_filter(keywords: Seq<Seq<char>>, title: Seq<char>, preview: Seq<char>) -> bool {
    keywords.len() == 0 || exists|i: int|
        0 <= i < keywords.len() && #[trigger] keyword_hit(keywords[i], title, preview)
}

impl Config {
    /// The keywords of the filter, as texts.
    pub open spec fn keywords(&self) -> Seq<Seq<char>> {
        string_views(self.filter_keywords@)
    }

    /// Get the dedup window for a site in hours. 0 = forever.
    pub fn dedup_window_for(&self, site: &str) -> (r: u64)
        ensures
            r == (if self.dedup_overrides@.contains_key(site@) {
                self.dedup_overrides@[site@]
            } else {
                self.dedup_window_hours
            }),
    {
        match self.dedup_overrides.get(site) {
            Some(h) => h,
            None => self.dedup_window_hours,
        }
    }

    /// Check if an item matches the keyword filter.
    /// Returns true if no keywords configured (pass-through) or any keyword matches.
    pub fn matches_filter(&self, title: &str, preview: &str) -> (r: bool)
        ensures
            r == passes_filter(self.keywords(), title@, preview@),
    {
        if self.filter_keywords.len() == 0 {
            return true;
        }
        let title_lower = to_lowercase(title);
        let preview_lower = to_lowercase(preview);
        let t = chars_of(title_lower.as_str());
        let p = chars_of(preview_lower.as_str());
        let mut i: usize = 0;
        while i < self.filter_keywords.len()
            invariant
                i <= self.filter_keywords.len(),
                t@ == lowercase_of(title@),
                p@ == lowercase_of(preview@),
                forall|j: int|
                    0 <= j < i ==> !#[trigger] keyword_hit(self.keywords()[j], title@, preview@),
            decreases self.filter_keywords.len() - i,
        {
            let k = chars_of(self.filter_keywords[i].as_str());
            assert(self.keywords()[i as int] == self.filter_keywords@[i as int]@);
            if contains_chars(&t, &k) || contains_chars(&p, &k) {
                assert(keyword_hit(self.keywords()[i as int], title@, preview@));
                return true;
            }
            i = i + 1;
        }
        false
    }

    /// Whether Telegram delivery is configured: both the bot token and the
    /// chat id are non-empty.
    pub fn telegram_configured(&self) -> (r: bool)
        ensures
            r == (self.telegram_bot_token@.len() > 0 && self.telegram_chat_id@.len() > 0),
    {
        self.telegram_bot_token.as_str().unicode_len() > 0
            && self.telegram_chat_id.as_str().unicode_len() > 0
    }
}

// ---------------------------------------------------------------------------
// Reading the settings
// ---------------------------------------------------------------------------

/// The raw setting values, as the environment holds them (`None` when unset).
#[derive(Debug, Clone)]
pub struct RawSettings {
    pub cdp_endpoint: Option<String>,
    pub database_url: Option<String>,
    pub telegram_bot_token: Option<String>,
    pub telegram_chat_id: Option<String>,
    pub crawl_interval_secs: Option<String>,
    pub enabled_sites: Option<String>,
    pub feed_output_path: Option<String>,
    pub feed_item_count: Option<String>,
    pub filter_keywords: Option<String>,
    pub digest_mode: Option<String>,
    pub dedup_window_hours: Option<String>,
    pub dedup_overrides: Option<String>,
}

/// Why the settings do not make a configuration.
#[derive(Debug, Clone, PartialEq, Eq)]
pub enum ConfigError {
    /// A required setting is unset; it holds the setting's name.
    Missing(String),
    /// `CRAWL_INTERVAL_SECS` is not a decimal `u64`.
    BadInterval,
}

impl ConfigError {
    /// The message the application stops with.
    pub fn message(&self) -> (r: String)
        ensures
            r@ == (match self {
                ConfigError::Missing(k) => "missing required env var: "@ + k@,
                ConfigError::BadInterval => "CRAWL_INTERVAL_SECS must be a positive integer"@,
            }),
    {
        match self {
            ConfigError::Missing(k) => {
                let mut r = String::new();
                r.append("missing required env var: ");
                r.append(k.as_str());
                r
            },
            ConfigError::BadInterval => {
                let mut r = String::new();
                r.append("CRAWL_INTERVAL_SECS must be a positive integer");
                r
            },
        }
    }
}

/// The non-empty names in a list of pieces, each trimmed and lowercased.
pub open spec fn kept_names(pieces: Seq<Seq<char>>) -> Seq<Seq<char>>
    decreases pieces.len(),
{
    if pieces.len() == 0 {
        Seq::empty()
    } else {
        let rest = kept_names(pieces.drop_last());
        let x = lowercase_of(trimmed(pieces.last()));
        if x.len() > 0 {
            rest.push(x)
        } else {
            rest
        }
    }
}

/// A comma-separated list setting: the non-empty, trimmed, lowercased entries.
pub open spec fn name_list(s: Seq<char>) -> Seq<Seq<char>> {
    kept_names(split_on(s, ','))
}

/// The `site:hours` pairs of a list of pieces: each piece is trimmed and
/// split at its first `:`; the site is trimmed and lowercased, the hours
/// trimmed and read as a `u64`. Pieces without `:` or with bad hours are
/// left out.
pub open spec fn override_pairs(pieces: Seq<Seq<char>>) -> Seq<(Seq<char>, u64)>
    decreases pieces.len(),
{
    if pieces.len() == 0 {
        Seq::empty()
    } else {
        let rest = override_pairs(pieces.drop_last());
        match split_once(trimmed(pieces.last()), ':') {
            Some(kv) => match parse_u64_spec(trimmed(kv.1)) {
                Some(h) => rest.push((lowercase_of(trimmed(kv.0)), h)),
                None => rest,
            },
            None => rest,
        }
    }
}

/// The map that a list of (site, hours) texts describes; later pairs win.
pub open spec fn override_map(pairs: Seq<(Seq<char>, u64)>) -> Map<Seq<char>, u64>
    decreases pairs.len(),
{
    if pairs.len() == 0 {
        Map::empty()
    } else {
        override_map(pairs.drop_last()).insert(pairs.last().0, pairs.last().1)
    }
}

/// The value of an optional setting read as `u64`, or `default`.
pub open spec fn u64_or(s: Option<String>, default: u64) -> u64 {
    match s {
        Some(t) => match parse_u64_spec(t@) {
            Some(v) => v,
            None => default,
        },
        None => default,
    }
}

/// The value of an optional setting read as `i64`, or `default`.
pub open spec fn i64_or(s: Option<String>, default: i64) -> i64 {
    match s {
        Some(t) => match parse_i64_spec(t@) {
            Some(v) => v,
            None => default,
        },
        None => default,
    }
}

/// The first required setting that is unset, in the order they are read.
pub open spec fn first_missing(raw: RawSettings) -> Option<Seq<char>> {
    if raw.cdp_endpoint is None {
        Some("CDP_ENDPOINT"@)
    } else if raw.database_url is None {
        Some("DATABASE_URL"@)
    } else if raw.telegram_bot_token is None {
        Some("TELEGRAM_BOT_TOKEN"@)
    } else if raw.telegram_chat_id is None {
        Some("TELEGRAM_CHAT_ID"@)
    } else if raw.crawl_interval_secs is None {
        Some("CRAWL_INTERVAL_SECS"@)
    } else {
        None
    }
}

/// The names in a comma-separated list.
pub fn parse_name_list(s: &str) -> (r: Vec<String>)
    ensures
        string_views(r@) == name_list(s@),
{
    let cs = chars_of(s);
    let pieces = split_chars(&cs, ',');
    let ghost ps = views(pieces@);
    let mut out: Vec<String> = Vec::new();
    let mut i: usize = 0;
    assert(ps.take(0) =~= Seq::<Seq<char>>::empty());
    assert(string_views(out@) =~= kept_names(ps.take(0)));
    while i < pieces.len()
        invariant
            i <= pieces.len(),
            ps == views(pieces@),
            string_views(out@) == kept_names(ps.take(i as int)),
        decreases pieces.len() - i,
    {
        let t = trim(&pieces[i]);
        let ts = string_of(&t);
        let low = to_lowercase(ts.as_str());
        let ghost before = out@;
        proof {
            assert(ps.take(i + 1).drop_last() =~= ps.take(i as int));
            assert(ps.take(i + 1).last() == pieces@[i as int]@);
        }
        if low.as_str().unicode_len() > 0 {
            out.push(low);
            assert(string_views(out@) =~= string_views(before).push(out@.last()@));
        }
        i = i + 1;
    }
    assert(ps.take(pieces.len() as int) =~= ps);
    out
}

/// The per-site overrides in a `site:hours,...` list.
pub fn parse_overrides(s: &str) -> (r: DedupOverrides)
    ensures
        r@ == override_map(override_pairs(split_on(s@, ','))),
{
    let cs = chars_of(s);
    let pieces = split_chars(&cs, ',');
    let ghost ps = views(pieces@);
    let mut out = DedupOverrides::new();
    let mut i: usize = 0;
    assert(ps.take(0) =~= Seq::<Seq<char>>::empty());
    while i < pieces.len()
        invariant
            i <= pieces.len(),
            ps == views(pieces@),
            out@ == override_map(override_pairs(ps.take(i as int))),
        decreases pieces.len() - i,
    {
        proof {
            assert(ps.take(i + 1).drop_last() =~= ps.take(i as int));
            assert(ps.take(i + 1).last() == pieces@[i as int]@);
        }
        let t = trim(&pieces[i]);
        match split_first(&t, ':') {
            Some(kv) => {
                let hours_text = trim(&kv.1);
                match parse_u64(&hours_text) {
                    Some(h) => {
                        let k = trim(&kv.0);
                        let ks = string_of(&k);
                        let key = to_lowercase(ks.as_str());
                        let ghost kk = key@;
                        out.insert(key, h);
                        let ghost pairs = override_pairs(ps.take(i + 1));
                        assert(pairs.drop_last() == override_pairs(ps.take(i as int)));
                        assert(pairs.last() == (kk, h));
                    },
                    None => {},
                }
            },
            None => {},
        }
        i = i + 1;
    }
    assert(ps.take(pieces.len() as int) =~= ps);
    out
}

/// Reads an optional `u64` setting, falling back to `default`.
fn read_u64_or(s: &Option<String>, default: u64) -> (r: u64)
    ensures
        r == u64_or(*s, default),
{
    match s {
        Some(t) => match parse_u64(&chars_of(t.as_str())) {
            Some(v) => v,
            None => default,
        },
        None => default,
    }
}

/// Reads an optional `i64` setting, falling back to `default`.
fn read_i64_or(s: &Option<String>, default: i64) -> (r: i64)
    ensures
        r == i64_or(*s, default),
{
    match s {
        Some(t) => match parse_i64(&chars_of(t.as_str())) {
            Some(v) => v,
            None => default,
        },
        None => default,
    }
}

fn missing(name: &str) -> (r: Result<Config, ConfigError>)
    ensures
        r matches Err(ConfigError::Missing(k)) && k@ == name@,
{
    let mut k = String::new();
    k.append(name);
    Err(ConfigError::Missing(k))
}

impl Config {
    /// Builds the configuration from the raw settings.
    ///
    /// Fails with the name of the first unset required setting, or with
    /// `BadInterval` when the crawl interval is not a decimal `u64`.
    pub fn from_settings(raw: RawSettings) -> (r: Result<Config, ConfigError>)
        ensures
            first_missing(raw) is Some ==> (r matches Err(ConfigError::Missing(m)) && m@
                == first_missing(raw)->0),
            first_missing(raw) is None && parse_u64_spec(raw.crawl_interval_secs->0@) is None
                ==> r == Err::<Config, ConfigError>(ConfigError::BadInterval),
            first_missing(raw) is None && parse_u64_spec(raw.crawl_interval_secs->0@) is Some
                && raw.enabled_sites is None ==> (r matches Err(ConfigError::Missing(m)) && m@
                == "ENABLED_SITES"@),
            r matches Ok(c) ==> {
                &&& first_missing(raw) is None
                &&& raw.enabled_sites is Some
                &&& c.cdp_endpoint == raw.cdp_endpoint->0
                &&& c.database_url == raw.database_url->0
                &&& c.telegram_bot_token == raw.telegram_bot_token->0
                &&& c.telegram_chat_id == raw.telegram_chat_id->0
                &&& parse_u64_spec(raw.crawl_interval_secs->0@) == Some(c.crawl_interval_secs)
                &&& string_views(c.enabled_sites@) == name_list(raw.enabled_sites->0@)
                &&& c.feed_output_path == (match raw.feed_output_path {
                    Some(p) => if p@.len() > 0 {
                        Some(p)
                    } else {
                        None
                    },
                    None => None,
                })
                &&& c.feed_item_count == i64_or(raw.feed_item_count, 100)
                &&& string_views(c.filter_keywords@) == (match raw.filter_keywords {
                    Some(k) => name_list(k@),
                    None => Seq::empty(),
                })
                &&& c.digest_mode == (match raw.digest_mode {
                    Some(d) => d@ == "true"@ || d@ == "1"@,
                    None => false,
                })
                &&& c.dedup_window_hours == u64_or(raw.dedup_window_hours, 0)
                &&& c.dedup_overrides@ == (match raw.dedup_overrides {
                    Some(o) => override_map(override_pairs(split_on(o@, ','))),
                    None => Map::empty(),
                })
            },
            r is Ok <==> (first_missing(raw) is None && parse_u64_spec(
                raw.crawl_interval_secs->0@,
            ) is Some && raw.enabled_sites is Some),
    {
        let cdp_endpoint = match raw.cdp_endpoint {
            Some(v) => v,
            None => return missing("CDP_ENDPOINT"),
        };
        let database_url = match raw.database_url {
            Some(v) => v,
            None => return missing("DATABASE_URL"),
        };
        let telegram_bot_token = match raw.telegram_bot_token {
            Some(v) => v,
            None => return missing("TELEGRAM_BOT_TOKEN"),
        };
        let telegram_chat_id = match raw.telegram_chat_id {
            Some(v) => v,
            None => return missing("TELEGRAM_CHAT_ID"),
        };
        let interval_text = match raw.crawl_interval_secs {
            Some(v) => v,
            None => return missing("CRAWL_INTERVAL_SECS"),
        };
        let crawl_interval_secs = match parse_u64(&chars_of(interval_text.as_str())) {
            Some(v) => v,
            None => return Err(ConfigError::BadInterval),
        };
        let enabled_sites = match &raw.enabled_sites {
            Some(v) => parse_name_list(v.as_str()),
            None => return missing("ENABLED_SITES"),
        };
        let feed_output_path = match raw.feed_output_path {
            Some(p) => if p.as_str().unicode_len() > 0 {
                Some(p)
            } else {
                None
            },
            None => None,
        };
        let feed_item_count = read_i64_or(&raw.feed_item_count, 100);
        let filter_keywords = match &raw.filter_keywords {
            Some(k) => parse_name_list(k.as_str()),
            None => {
                let v: Vec<String> = Vec::new();
                assert(string_views(v@) =~= Seq::<Seq<char>>::empty());
                v
            },
        };
        let digest_mode = match &raw.digest_mode {
            Some(d) => same_text(d.as_str(), "true") || same_text(d.as_str(), "1"),
            None => false,
        };
        let dedup_window_hours = read_u64_or(&raw.dedup_window_hours, 0);
        let dedup_overrides = match &raw.dedup_overrides {
            Some(o) => parse_overrides(o.as_str()),
            None => DedupOverrides::new(),
        };
        Ok(Config {
            cdp_endpoint,
            database_url,
            telegram_bot_token,
            telegram_chat_id,
            crawl_interval_secs,
            enabled_sites,
            feed_output_path,
            feed_item_count,
            filter_keywords,
            digest_mode,
            dedup_window_hours,
            dedup_overrides,
        })
    }
}

} // verus!
