//! The command-line grammar of `myfeed`: subcommands, their options and
//! arguments, the help texts, and the errors for malformed command lines.
//!
//! Options are `--name value`, `--name=value`, `-x value`, `-xvalue`,
//! `-x=value`, or flags `--name`; `-h`/`--help` asks for help at the level
//! where it appears. A value cannot be taken from a token that looks like
//! an option; `--` ends the options, and every later token is a positional
//! argument. Single-use options may appear once; repeatable ones collect
//! their values in order.

use vstd::prelude::*;
use crate::cli::crawl::OutputFormat;
use crate::config::string_views;
use crate::decimal::{parse_i64, parse_i64_spec, parse_u64, parse_u64_spec};
use crate::scan::{split_chars, split_first, split_on, split_once, starts_with, views};
use crate::text::{chars_of, lowercase_of, same_text, string_of};

verus! {

// ---------------------------------------------------------------------------
// Help texts and usage lines
// ---------------------------------------------------------------------------

pub const TOP_USAGE: &'static str = "myfeed <COMMAND>";

pub const TOP_HELP: &'static str = "Personal feed bot powered by pwright\n\nUsage: myfeed <COMMAND>\n\nCommands:\n  run        Start the feed crawler daemon\n  once       Run a single crawl cycle and exit (useful for testing)\n  login      Open a browser tab for manual login. The user logs in, then the session cookies persist for future crawls\n  list       List recent feed items from the database\n  snapshots  List crawl snapshots for a site\n  snapshot   Show a specific snapshot by ID\n  dump       Dump recent feed items as JSON for agent consumption\n  events     Show recent events from the event log\n  crawl      Crawl one or more sites and output items as JSON\n  recipe     Manage and validate recipes\n  help       Print this message or the help of the given subcommand(s)\n\nOptions:\n  -h, --help  Print help\n";

pub const MISSING_COMMAND: &'static str = "error: 'myfeed' requires a subcommand but one was not provided\n  [subcommands: run, once, login, list, snapshots, snapshot, dump, events, crawl, recipe, help]\n\nUsage: myfeed <COMMAND>\n\nFor more information, try '--help'.\n";

pub const RECIPE_USAGE: &'static str = "myfeed recipe <COMMAND>";

pub const RECIPE_HELP: &'static str = "Manage and validate recipes\n\nUsage: myfeed recipe <COMMAND>\n\nCommands:\n  list      List all available recipes\n  validate  Validate a recipe by parsing it and doing a dry-run in Chrome\n  help      Print this message or the help of the given subcommand(s)\n\nOptions:\n  -h, --help  Print help\n";

pub const MISSING_RECIPE_COMMAND: &'static str = "error: 'myfeed recipe' requires a subcommand but one was not provided\n  [subcommands: list, validate, help]\n\nUsage: myfeed recipe <COMMAND>\n\nFor more information, try '--help'.\n";

/// A subcommand that takes options and arguments.
#[derive(Debug, Clone, Copy, PartialEq, Eq, Structural)]
pub enum Leaf {
    Run,
    Once,
    Login,
    List,
    Snapshots,
    Snapshot,
    Dump,
    Events,
    Crawl,
    RecipeList,
    RecipeValidate,
}

/// The usage line of a subcommand.
pub open spec fn usage_of(l: Leaf) -> Seq<char> {
    match l {
        Leaf::Run => "myfeed run"@,
        Leaf::Once => "myfeed once"@,
        Leaf::Login => "myfeed login <SITE>"@,
        Leaf::List => "myfeed list [OPTIONS]"@,
        Leaf::Snapshots => "myfeed snapshots [OPTIONS] <SITE>"@,
        Leaf::Snapshot => "myfeed snapshot <ID>"@,
        Leaf::Dump => "myfeed dump [OPTIONS]"@,
        Leaf::Events => "myfeed events [OPTIONS]"@,
        Leaf::Crawl => "myfeed crawl [OPTIONS] <SITES>..."@,
        Leaf::RecipeList => "myfeed recipe list"@,
        Leaf::RecipeValidate => "myfeed recipe validate <SITE>"@,
    }
}

/// The usage line of a subcommand.
pub fn usage(l: Leaf) -> (r: &'static str)
    ensures
        r@ == usage_of(l),
{
    match l {
        Leaf::Run => "myfeed run",
        Leaf::Once => "myfeed once",
        Leaf::Login => "myfeed login <SITE>",
        Leaf::List => "myfeed list [OPTIONS]",
        Leaf::Snapshots => "myfeed snapshots [OPTIONS] <SITE>",
        Leaf::Snapshot => "myfeed snapshot <ID>",
        Leaf::Dump => "myfeed dump [OPTIONS]",
        Leaf::Events => "myfeed events [OPTIONS]",
        Leaf::Crawl => "myfeed crawl [OPTIONS] <SITES>...",
        Leaf::RecipeList => "myfeed recipe list",
        Leaf::RecipeValidate => "myfeed recipe validate <SITE>",
    }
}

/// The help text of a subcommand.
pub open spec fn help_of(l: Leaf) -> Seq<char> {
    match l {
        Leaf::Run => "Start the feed crawler daemon\n\nUsage: myfeed run\n\nOptions:\n  -h, --help  Print help\n"@,
        Leaf::Once => "Run a single crawl cycle and exit (useful for testing)\n\nUsage: myfeed once\n\nOptions:\n  -h, --help  Print help\n"@,
        Leaf::Login => "Open a browser tab for manual login. The user logs in, then the session cookies persist for future crawls\n\nUsage: myfeed login <SITE>\n\nArguments:\n  <SITE>  Site to log in to (reddit, zhihu, weibo, x)\n\nOptions:\n  -h, --help  Print help\n"@,
        Leaf::List => "List recent feed items from the database\n\nUsage: myfeed list [OPTIONS]\n\nOptions:\n  -s, --site <SITE>    Filter by site name (e.g., reddit)\n  -l, --limit <LIMIT>  Number of items to show [default: 20]\n  -h, --help           Print help\n"@,
        Leaf::Snapshots => "List crawl snapshots for a site\n\nUsage: myfeed snapshots [OPTIONS] <SITE>\n\nArguments:\n  <SITE>  Site name (required)\n\nOptions:\n  -l, --limit <LIMIT>  Number of snapshots to show [default: 10]\n  -h, --help           Print help\n"@,
        Leaf::Snapshot => "Show a specific snapshot by ID\n\nUsage: myfeed snapshot <ID>\n\nArguments:\n  <ID>  Snapshot ID\n\nOptions:\n  -h, --help  Print help\n"@,
        Leaf::Dump => "Dump recent feed items as JSON for agent consumption\n\nUsage: myfeed dump [OPTIONS]\n\nOptions:\n      --hours <HOURS>  Hours of history to include (default: 24) [default: 24]\n      --site <SITE>    Filter by site (repeatable)\n      --compact        Compact mode: title + url only, no preview (default for index)\n      --ids <IDS>      Fetch full details for specific item IDs (comma-separated)\n  -h, --help           Print help\n"@,
        Leaf::Events => "Show recent events from the event log\n\nUsage: myfeed events [OPTIONS]\n\nOptions:\n  -l, --limit <LIMIT>  Number of recent events to show [default: 20]\n  -h, --help           Print help\n"@,
        Leaf::Crawl => "Crawl one or more sites and output items as JSON\n\nUsage: myfeed crawl [OPTIONS] <SITES>...\n\nArguments:\n  <SITES>...  Sites to crawl (repeated or comma-separated)\n\nOptions:\n  -p, --param <KEY=VALUE>  Recipe parameter (repeatable)\n      --limit <LIMIT>      Max items to return (default: all)\n      --format <FORMAT>    Output format: json, jsonl, table [default: json]\n      --compact            Omit previews, just id/title/url\n      --save               Save crawl snapshot and items to the local DB\n      --notify             Send new items to the notifier\n  -h, --help               Print help\n"@,
        Leaf::RecipeList => "List all available recipes\n\nUsage: myfeed recipe list\n\nOptions:\n  -h, --help  Print help\n"@,
        Leaf::RecipeValidate => "Validate a recipe by parsing it and doing a dry-run in Chrome\n\nUsage: myfeed recipe validate <SITE>\n\nArguments:\n  <SITE>  Site whose recipe to validate\n\nOptions:\n  -h, --help  Print help\n"@,
    }
}

/// The help text of a subcommand.
pub fn help(l: Leaf) -> (r: &'static str)
    ensures
        r@ == help_of(l),
{
    match l {
        Leaf::Run => "Start the feed crawler daemon\n\nUsage: myfeed run\n\nOptions:\n  -h, --help  Print help\n",
        Leaf::Once => "Run a single crawl cycle and exit (useful for testing)\n\nUsage: myfeed once\n\nOptions:\n  -h, --help  Print help\n",
        Leaf::Login => "Open a browser tab for manual login. The user logs in, then the session cookies persist for future crawls\n\nUsage: myfeed login <SITE>\n\nArguments:\n  <SITE>  Site to log in to (reddit, zhihu, weibo, x)\n\nOptions:\n  -h, --help  Print help\n",
        Leaf::List => "List recent feed items from the database\n\nUsage: myfeed list [OPTIONS]\n\nOptions:\n  -s, --site <SITE>    Filter by site name (e.g., reddit)\n  -l, --limit <LIMIT>  Number of items to show [default: 20]\n  -h, --help           Print help\n",
        Leaf::Snapshots => "List crawl snapshots for a site\n\nUsage: myfeed snapshots [OPTIONS] <SITE>\n\nArguments:\n  <SITE>  Site name (required)\n\nOptions:\n  -l, --limit <LIMIT>  Number of snapshots to show [default: 10]\n  -h, --help           Print help\n",
        Leaf::Snapshot => "Show a specific snapshot by ID\n\nUsage: myfeed snapshot <ID>\n\nArguments:\n  <ID>  Snapshot ID\n\nOptions:\n  -h, --help  Print help\n",
        Leaf::Dump => "Dump recent feed items as JSON for agent consumption\n\nUsage: myfeed dump [OPTIONS]\n\nOptions:\n      --hours <HOURS>  Hours of history to include (default: 24) [default: 24]\n      --site <SITE>    Filter by site (repeatable)\n      --compact        Compact mode: title + url only, no preview (default for index)\n      --ids <IDS>      Fetch full details for specific item IDs (comma-separated)\n  -h, --help           Print help\n",
        Leaf::Events => "Show recent events from the event log\n\nUsage: myfeed events [OPTIONS]\n\nOptions:\n  -l, --limit <LIMIT>  Number of recent events to show [default: 20]\n  -h, --help           Print help\n",
        Leaf::Crawl => "Crawl one or more sites and output items as JSON\n\nUsage: myfeed crawl [OPTIONS] <SITES>...\n\nArguments:\n  <SITES>...  Sites to crawl (repeated or comma-separated)\n\nOptions:\n  -p, --param <KEY=VALUE>  Recipe parameter (repeatable)\n      --limit <LIMIT>      Max items to return (default: all)\n      --format <FORMAT>    Output format: json, jsonl, table [default: json]\n      --compact            Omit previews, just id/title/url\n      --save               Save crawl snapshot and items to the local DB\n      --notify             Send new items to the notifier\n  -h, --help               Print help\n",
        Leaf::RecipeList => "List all available recipes\n\nUsage: myfeed recipe list\n\nOptions:\n  -h, --help  Print help\n",
        Leaf::RecipeValidate => "Validate a recipe by parsing it and doing a dry-run in Chrome\n\nUsage: myfeed recipe validate <SITE>\n\nArguments:\n  <SITE>  Site whose recipe to validate\n\nOptions:\n  -h, --help  Print help\n",
    }
}

/// An error report without the usage line: the message and a pointer to
/// `--help`.
pub open spec fn bare_error_text(msg: Seq<char>) -> Seq<char> {
    "error: "@ + msg + "\n\nFor more information, try '--help'.\n"@
}

/// An error report: the message, the usage line and a pointer to `--help`.
pub open spec fn error_text(msg: Seq<char>, usage: Seq<char>) -> Seq<char> {
    "error: "@ + msg + "\n\nUsage: "@ + usage + "\n\nFor more information, try '--help'.\n"@
}

// ---------------------------------------------------------------------------
// Options
// ---------------------------------------------------------------------------

/// An option of a subcommand.
#[derive(Debug, Clone, Copy)]
pub struct OptDef {
    pub long: &'static str,
    pub short: Option<char>,
    pub value_name: &'static str,
    pub takes_value: bool,
    pub multiple: bool,
}

/// How an option is named in messages: `--long <VALUE>`, or `--long` for a flag.
pub open spec fn display_of(d: OptDef) -> Seq<char> {
    if d.takes_value {
        "--"@ + d.long@ + " <"@ + d.value_name@ + ">"@
    } else {
        "--"@ + d.long@
    }
}

fn display(d: &OptDef) -> (r: String)
    ensures
        r@ == display_of(*d),
{
    let mut r = String::new();
    r.append("--");
    r.append(d.long);
    if d.takes_value {
        r.append(" <");
        r.append(d.value_name);
        r.append(">");
    }
    r
}

fn opt(long: &'static str, short: Option<char>, value_name: &'static str, takes_value: bool, multiple: bool) -> (r: OptDef)
    ensures
        r == (OptDef { long, short, value_name, takes_value, multiple }),
{
    OptDef { long, short, value_name, takes_value, multiple }
}

/// The options of a subcommand.
pub open spec fn leaf_defs_spec(l: Leaf) -> Seq<OptDef> {
    match l {
        Leaf::List => seq![
            OptDef { long: "site", short: Some('s'), value_name: "SITE", takes_value: true, multiple: false },
            OptDef { long: "limit", short: Some('l'), value_name: "LIMIT", takes_value: true, multiple: false },
        ],
        Leaf::Snapshots => seq![
            OptDef { long: "limit", short: Some('l'), value_name: "LIMIT", takes_value: true, multiple: false },
        ],
        Leaf::Events => seq![
            OptDef { long: "limit", short: Some('l'), value_name: "LIMIT", takes_value: true, multiple: false },
        ],
        Leaf::Dump => seq![
            OptDef { long: "hours", short: None, value_name: "HOURS", takes_value: true, multiple: false },
            OptDef { long: "site", short: None, value_name: "SITE", takes_value: true, multiple: true },
            OptDef { long: "compact", short: None, value_name: "", takes_value: false, multiple: false },
            OptDef { long: "ids", short: None, value_name: "IDS", takes_value: true, multiple: true },
        ],
        Leaf::Crawl => seq![
            OptDef { long: "param", short: Some('p'), value_name: "KEY=VALUE", takes_value: true, multiple: true },
            OptDef { long: "limit", short: None, value_name: "LIMIT", takes_value: true, multiple: false },
            OptDef { long: "format", short: None, value_name: "FORMAT", takes_value: true, multiple: false },
            OptDef { long: "compact", short: None, value_name: "", takes_value: false, multiple: false },
            OptDef { long: "save", short: None, value_name: "", takes_value: false, multiple: false },
            OptDef { long: "notify", short: None, value_name: "", takes_value: false, multiple: false },
        ],
        _ => Seq::empty(),
    }
}

/// The options of a subcommand.
pub fn leaf_defs(l: Leaf) -> (r: Vec<OptDef>)
    ensures
        r@ == leaf_defs_spec(l),
{
    let mut r: Vec<OptDef> = Vec::new();
    match l {
        Leaf::List => {
            r.push(opt("site", Some('s'), "SITE", true, false));
            r.push(opt("limit", Some('l'), "LIMIT", true, false));
        },
        Leaf::Snapshots => {
            r.push(opt("limit", Some('l'), "LIMIT", true, false));
        },
        Leaf::Events => {
            r.push(opt("limit", Some('l'), "LIMIT", true, false));
        },
        Leaf::Dump => {
            r.push(opt("hours", None, "HOURS", true, false));
            r.push(opt("site", None, "SITE", true, true));
            r.push(opt("compact", None, "", false, false));
            r.push(opt("ids", None, "IDS", true, true));
        },
        Leaf::Crawl => {
            r.push(opt("param", Some('p'), "KEY=VALUE", true, true));
            r.push(opt("limit", None, "LIMIT", true, false));
            r.push(opt("format", None, "FORMAT", true, false));
            r.push(opt("compact", None, "", false, false));
            r.push(opt("save", None, "", false, false));
            r.push(opt("notify", None, "", false, false));
        },
        _ => {},
    }
    assert(r@ =~= leaf_defs_spec(l));
    r
}

/// The index of the first option with long name `name`.
pub open spec fn find_long(defs: Seq<OptDef>, name: Seq<char>) -> Option<int>
    decreases defs.len(),
{
    if defs.len() == 0 {
        None
    } else {
        match find_long(defs.drop_last(), name) {
            Some(k) => Some(k),
            None => if defs.last().long@ == name {
                Some(defs.len() - 1)
            } else {
                None
            },
        }
    }
}

/// The index of the first option with short name `c`.
pub open spec fn find_short(defs: Seq<OptDef>, c: char) -> Option<int>
    decreases defs.len(),
{
    if defs.len() == 0 {
        None
    } else {
        match find_short(defs.drop_last(), c) {
            Some(k) => Some(k),
            None => if defs.last().short == Some(c) {
                Some(defs.len() - 1)
            } else {
                None
            },
        }
    }
}

fn lookup_long(defs: &Vec<OptDef>, name: &Vec<char>) -> (r: Option<usize>)
    ensures
        match r {
            Some(k) => find_long(defs@, name@) == Some(k as int) && k < defs.len(),
            None => find_long(defs@, name@) is None,
        },
{
    let mut i: usize = 0;
    assert(defs@.take(0) =~= Seq::<OptDef>::empty());
    while i < defs.len()
        invariant
            i <= defs.len(),
            find_long(defs@.take(i as int), name@) is None,
        decreases defs.len() - i,
    {
        assert(defs@.take(i + 1).drop_last() =~= defs@.take(i as int));
        assert(defs@.take(i + 1).last() == defs@[i as int]);
        let n = chars_of(defs[i].long);
        if crate::scan::has_prefix(&n, name) && n.len() == name.len() {
            assert(n@ =~= name@) by {
                assert(n@.take(name@.len() as int) =~= n@);
            }
            proof {
                lemma_find_long_prefix(defs@, name@, i as int + 1);
            }
            return Some(i);
        }
        proof {
            if n@ == name@ {
                assert(n@.take(name@.len() as int) =~= n@);
            }
        }
        i = i + 1;
    }
    assert(defs@.take(defs.len() as int) =~= defs@);
    None
}

proof fn lemma_find_long_prefix(defs: Seq<OptDef>, name: Seq<char>, n: int)
    requires
        0 <= n <= defs.len(),
        find_long(defs.take(n), name) is Some,
    ensures
        find_long(defs, name) == find_long(defs.take(n), name),
    decreases defs.len() - n,
{
    if n < defs.len() {
        assert(defs.take(n + 1).drop_last() =~= defs.take(n));
        lemma_find_long_prefix(defs, name, n + 1);
    } else {
        assert(defs.take(n) =~= defs);
    }
}

proof fn lemma_find_short_prefix(defs: Seq<OptDef>, c: char, n: int)
    requires
        0 <= n <= defs.len(),
        find_short(defs.take(n), c) is Some,
    ensures
        find_short(defs, c) == find_short(defs.take(n), c),
    decreases defs.len() - n,
{
    if n < defs.len() {
        assert(defs.take(n + 1).drop_last() =~= defs.take(n));
        lemma_find_short_prefix(defs, c, n + 1);
    } else {
        assert(defs.take(n) =~= defs);
    }
}

fn lookup_short(defs: &Vec<OptDef>, c: char) -> (r: Option<usize>)
    ensures
        match r {
            Some(k) => find_short(defs@, c) == Some(k as int) && k < defs.len(),
            None => find_short(defs@, c) is None,
        },
{
    let mut i: usize = 0;
    assert(defs@.take(0) =~= Seq::<OptDef>::empty());
    while i < defs.len()
        invariant
            i <= defs.len(),
            find_short(defs@.take(i as int), c) is None,
        decreases defs.len() - i,
    {
        assert(defs@.take(i + 1).drop_last() =~= defs@.take(i as int));
        assert(defs@.take(i + 1).last() == defs@[i as int]);
        if defs[i].short == Some(c) {
            proof {
                lemma_find_short_prefix(defs@, c, i as int + 1);
            }
            return Some(i);
        }
        i = i + 1;
    }
    assert(defs@.take(defs.len() as int) =~= defs@);
    None
}

// ---------------------------------------------------------------------------
// Scanning the tokens of a subcommand
// ---------------------------------------------------------------------------

/// What the tokens of a subcommand hold so far: the options given (by
/// index, with their value, empty for flags) and the positional arguments.
pub struct Scanned {
    pub opts: Vec<(usize, String)>,
    pub positionals: Vec<String>,
}

/// The view of `Scanned`.
pub struct ScannedV {
    pub opts: Seq<(usize, Seq<char>)>,
    pub positionals: Seq<Seq<char>>,
}

impl View for Scanned {
    type V = ScannedV;

    open spec fn view(&self) -> ScannedV {
        ScannedV {
            opts: self.opts@.map_values(|p: (usize, String)| (p.0, p.1@)),
            positionals: string_views(self.positionals@),
        }
    }
}

/// The outcome of scanning: help was asked for, the tokens are malformed
/// (with the message, reported with the usage line), an option was left
/// without its value (reported without the usage line), or the scan
/// finished.
pub enum ScanV {
    Help,
    Error(Seq<char>),
    Missing(Seq<char>),
    Done(ScannedV),
}

/// Whether option `k` was given.
pub open spec fn given(opts: Seq<(usize, Seq<char>)>, k: int) -> bool {
    exists|j: int| 0 <= j < opts.len() && opts[j].0 == k
}

/// The message for an unknown token.
pub open spec fn unexpected_msg(t: Seq<char>) -> Seq<char> {
    "unexpected argument '"@ + t + "' found"@
}

/// The message for an option left without its value.
pub open spec fn no_value_msg(d: OptDef) -> Seq<char> {
    "a value is required for '"@ + display_of(d) + "' but none was supplied"@
}

/// The message for a repeated single-use option.
pub open spec fn repeat_msg(d: OptDef) -> Seq<char> {
    "the argument '"@ + display_of(d) + "' cannot be used multiple times"@
}

/// Whether a token is a long option: `--` followed by at least one
/// character.
pub open spec fn is_long_token(t: Seq<char>) -> bool {
    t.len() > 2 && starts_with(t, "--"@)
}

/// Whether a token is a short option: `-` followed by at least one
/// character, the first not `-`.
pub open spec fn is_short_token(t: Seq<char>) -> bool {
    t.len() >= 2 && t[0] == '-' && t[1] != '-'
}

/// The name of a long option: what follows `--`, up to a `=`.
pub open spec fn long_name(t: Seq<char>) -> Seq<char> {
    match split_once(t.skip(2), '=') {
        Some(nv) => nv.0,
        None => t.skip(2),
    }
}

/// Whether a token can be an option's value: it is neither `--` nor an
/// option (a lone `-` can).
pub open spec fn value_like(t: Seq<char>) -> bool {
    t != "--"@ && !is_long_token(t) && !is_short_token(t)
}

/// The option named by a token that the subcommand does not know, if the
/// token is one: a long name other than `help` that is not defined, or a
/// short letter other than `h` that is not defined.
pub open spec fn unknown_option(defs: Seq<OptDef>, t: Seq<char>) -> Option<Seq<char>> {
    if is_long_token(t) {
        if find_long(defs, long_name(t)) is None && long_name(t) != "help"@ {
            Some("--"@ + long_name(t))
        } else {
            None
        }
    } else if is_short_token(t) {
        if t[1] != 'h' && find_short(defs, t[1]) is None {
            Some(seq!['-', t[1]])
        } else {
            None
        }
    } else {
        None
    }
}

/// Handles option `k` met at token `i` with no value attached: a repeated
/// single-use option is an error; a valued option takes the next token
/// when that can be a value; otherwise an unknown option there is reported,
/// or else the option is left without its value. A flag takes nothing.
pub open spec fn take_option(
    defs: Seq<OptDef>,
    toks: Seq<Seq<char>>,
    i: int,
    k: int,
    acc: ScannedV,
) -> (int, Result<ScannedV, ScanV>) {
    let d = defs[k];
    if !d.multiple && given(acc.opts, k) {
        (i, Err(ScanV::Error(repeat_msg(d))))
    } else if d.takes_value {
        if i + 1 < toks.len() && value_like(toks[i + 1]) {
            (i + 2, Ok(ScannedV { opts: acc.opts.push((k as usize, toks[i + 1])), ..acc }))
        } else if i + 1 < toks.len() && unknown_option(defs, toks[i + 1]) is Some {
            (i, Err(ScanV::Error(unexpected_msg(unknown_option(defs, toks[i + 1])->0))))
        } else {
            (i, Err(ScanV::Missing(no_value_msg(d))))
        }
    } else {
        (i + 1, Ok(ScannedV { opts: acc.opts.push((k as usize, Seq::empty())), ..acc }))
    }
}

/// The value attached to a short option after its letter, without a
/// leading `=`.
pub open spec fn attached_value(rest: Seq<char>) -> Seq<char> {
    if rest.len() > 0 && rest[0] == '=' {
        rest.drop_first()
    } else {
        rest
    }
}

/// One step of the scan at token `i`: the next position and the new state,
/// or the end of the scan. `--` ends the options: every later token is a
/// positional argument.
pub open spec fn scan_step(defs: Seq<OptDef>, toks: Seq<Seq<char>>, i: int, acc: ScannedV) -> (
    int,
    Result<ScannedV, ScanV>,
) {
    let t = toks[i];
    if t == "--"@ {
        (i, Err(ScanV::Done(ScannedV { positionals: acc.positionals + toks.skip(i + 1), ..acc })))
    } else if t == "-h"@ || t == "--help"@ {
        (i, Err(ScanV::Help))
    } else if is_long_token(t) {
        let body = t.skip(2);
        match split_once(body, '=') {
            Some(nv) => match find_long(defs, nv.0) {
                Some(k) => {
                    let d = defs[k];
                    if !d.takes_value {
                        (
                            i,
                            Err(
                                ScanV::Error(
                                    "unexpected value '"@ + nv.1 + "' for '"@ + display_of(d)
                                        + "' found; no more were expected"@,
                                ),
                            ),
                        )
                    } else if !d.multiple && given(acc.opts, k) {
                        (i, Err(ScanV::Error(repeat_msg(d))))
                    } else {
                        (i + 1, Ok(ScannedV { opts: acc.opts.push((k as usize, nv.1)), ..acc }))
                    }
                },
                None => if nv.0 == "help"@ {
                    (
                        i,
                        Err(
                            ScanV::Error(
                                "unexpected value '"@ + nv.1
                                    + "' for '--help' found; no more were expected"@,
                            ),
                        ),
                    )
                } else {
                    (i, Err(ScanV::Error(unexpected_msg("--"@ + nv.0))))
                },
            },
            None => match find_long(defs, body) {
                Some(k) => take_option(defs, toks, i, k, acc),
                None => (i, Err(ScanV::Error(unexpected_msg(t)))),
            },
        }
    } else if is_short_token(t) {
        if t[1] == 'h' {
            (i, Err(ScanV::Help))
        } else {
            match find_short(defs, t[1]) {
                Some(k) => {
                    let d = defs[k];
                    let rest = t.skip(2);
                    if rest.len() == 0 {
                        take_option(defs, toks, i, k, acc)
                    } else if !d.takes_value {
                        // No subcommand has a short flag besides `-h`, so
                        // letters after a flag are not read as more flags.
                        (i, Err(ScanV::Error(unexpected_msg(seq!['-', rest[0]]))))
                    } else if !d.multiple && given(acc.opts, k) {
                        (i, Err(ScanV::Error(repeat_msg(d))))
                    } else {
                        (
                            i + 1,
                            Ok(
                                ScannedV {
                                    opts: acc.opts.push((k as usize, attached_value(rest))),
                                    ..acc
                                },
                            ),
                        )
                    }
                },
                None => (i, Err(ScanV::Error(unexpected_msg(seq!['-', t[1]])))),
            }
        }
    } else {
        (i + 1, Ok(ScannedV { positionals: acc.positionals.push(t), ..acc }))
    }
}

/// Scans the tokens from position `i` on, left to right.
pub open spec fn scan_from(defs: Seq<OptDef>, toks: Seq<Seq<char>>, i: int, acc: ScannedV) -> ScanV
    decreases toks.len() - i,
{
    if i < 0 || i >= toks.len() {
        ScanV::Done(acc)
    } else {
        match scan_step(defs, toks, i, acc) {
            (j, Ok(a)) => if j > i {
                scan_from(defs, toks, j, a)
            } else {
                ScanV::Done(a)
            },
            (_, Err(end)) => end,
        }
    }
}

/// The outcome of scanning, as executable values.
pub enum ScanOutcome {
    Help,
    Error(String),
    Missing(String),
    Done(Scanned),
}

/// The view of a scan outcome.
pub open spec fn outcome_view(o: ScanOutcome) -> ScanV {
    match o {
        ScanOutcome::Help => ScanV::Help,
        ScanOutcome::Error(m) => ScanV::Error(m@),
        ScanOutcome::Missing(m) => ScanV::Missing(m@),
        ScanOutcome::Done(s) => ScanV::Done(s@),
    }
}

pub(crate) fn was_given(opts: &Vec<(usize, String)>, k: usize) -> (r: bool)
    ensures
        r == given(opts@.map_values(|p: (usize, String)| (p.0, p.1@)), k as int),
{
    let ghost v = opts@.map_values(|p: (usize, String)| (p.0, p.1@));
    let mut j: usize = 0;
    while j < opts.len()
        invariant
            j <= opts.len(),
            v == opts@.map_values(|p: (usize, String)| (p.0, p.1@)),
            forall|m: int| 0 <= m < j ==> v[m].0 != k,
        decreases opts.len() - j,
    {
        if opts[j].0 == k {
            assert(v[j as int].0 == k);
            return true;
        }
        j = j + 1;
    }
    false
}

fn repeat_error(d: &OptDef) -> (r: String)
    ensures
        r@ == repeat_msg(*d),
{
    let mut r = String::new();
    r.append("the argument '");
    r.append(display(d).as_str());
    r.append("' cannot be used multiple times");
    r
}

fn no_value(d: &OptDef) -> (r: String)
    ensures
        r@ == no_value_msg(*d),
{
    let mut r = String::new();
    r.append("a value is required for '");
    r.append(display(d).as_str());
    r.append("' but none was supplied");
    r
}

fn unexpected(t: &String) -> (r: String)
    ensures
        r@ == unexpected_msg(t@),
{
    let mut r = String::new();
    r.append("unexpected argument '");
    r.append(t.as_str());
    r.append("' found");
    r
}

fn unexpected_chars(t: &Vec<char>) -> (r: String)
    ensures
        r@ == unexpected_msg(t@),
{
    let mut r = String::new();
    r.append("unexpected argument '");
    crate::text::push_chars(&mut r, t);
    r.append("' found");
    r
}

fn unexpected_long(name: &Vec<char>) -> (r: String)
    ensures
        r@ == unexpected_msg("--"@ + name@),
{
    let mut t: Vec<char> = Vec::new();
    t.push('-');
    t.push('-');
    let mut k: usize = 0;
    proof {
        reveal_strlit("--");
    }
    while k < name.len()
        invariant
            k <= name.len(),
            t@ == "--"@ + name@.take(k as int),
        decreases name.len() - k,
    {
        t.push(name[k]);
        assert(name@.take(k + 1) =~= name@.take(k as int).push(name@[k as int]));
        k = k + 1;
    }
    assert(name@.take(name.len() as int) =~= name@);
    unexpected_chars(&t)
}

fn unexpected_short(c: char) -> (r: String)
    ensures
        r@ == unexpected_msg(seq!['-', c]),
{
    let mut t: Vec<char> = Vec::new();
    t.push('-');
    t.push(c);
    assert(t@ =~= seq!['-', c]);
    unexpected_chars(&t)
}

fn is_long_tok(tc: &Vec<char>) -> (r: bool)
    ensures
        r == is_long_token(tc@),
{
    let dd = chars_of("--");
    tc.len() > 2 && crate::scan::has_prefix(tc, &dd)
}

fn is_short_tok(tc: &Vec<char>) -> (r: bool)
    ensures
        r == is_short_token(tc@),
{
    tc.len() >= 2 && tc[0] == '-' && tc[1] != '-'
}

fn name_of_long(tc: &Vec<char>) -> (r: Vec<char>)
    requires
        tc.len() >= 2,
    ensures
        r@ == long_name(tc@),
{
    let body = crate::scan::slice_chars(tc, 2, tc.len());
    assert(body@ =~= tc@.skip(2));
    match split_first(&body, '=') {
        Some(nv) => nv.0,
        None => body,
    }
}

/// The unknown option a token names, if any.
fn unknown_option_of(defs: &Vec<OptDef>, tc: &Vec<char>) -> (r: Option<Vec<char>>)
    ensures
        match r {
            Some(u) => unknown_option(defs@, tc@) == Some(u@),
            None => unknown_option(defs@, tc@) is None,
        },
{
    if is_long_tok(tc) {
        let name = name_of_long(tc);
        let help = chars_of("help");
        let is_help = crate::scan::has_prefix(&name, &help) && name.len() == help.len();
        proof {
            if is_help {
                assert(name@.take(help@.len() as int) =~= name@);
            }
            if name@ == "help"@ {
                assert(name@.take(help@.len() as int) =~= name@);
            }
        }
        if lookup_long(defs, &name).is_none() && !is_help {
            let mut u: Vec<char> = Vec::new();
            u.push('-');
            u.push('-');
            let mut k: usize = 0;
            proof {
                reveal_strlit("--");
            }
            while k < name.len()
                invariant
                    k <= name.len(),
                    u@ == "--"@ + name@.take(k as int),
                decreases name.len() - k,
            {
                u.push(name[k]);
                assert(name@.take(k + 1) =~= name@.take(k as int).push(name@[k as int]));
                k = k + 1;
            }
            assert(name@.take(name.len() as int) =~= name@);
            Some(u)
        } else {
            None
        }
    } else if is_short_tok(tc) {
        if tc[1] != 'h' && lookup_short(defs, tc[1]).is_none() {
            let mut u: Vec<char> = Vec::new();
            u.push('-');
            u.push(tc[1]);
            assert(u@ =~= seq!['-', tc@[1]]);
            Some(u)
        } else {
            None
        }
    } else {
        None
    }
}

/// Option `k` met at token `i` with no value attached (see `take_option`):
/// `None` with the new position when the scan goes on, or how it ends.
fn take_opt(defs: &Vec<OptDef>, toks: &Vec<String>, i: usize, k: usize, acc: &mut Scanned) -> (r:
    (Option<ScanOutcome>, usize))
    requires
        i < toks.len(),
        k < defs.len(),
    ensures
        ({
            let (j, res) = take_option(defs@, string_views(toks@), i as int, k as int, old(acc)@);
            match r.0 {
                None => res == Ok::<ScannedV, ScanV>(final(acc)@) && j == r.1 && i < j <= toks.len(),
                Some(o) => res == Err::<ScannedV, ScanV>(outcome_view(o)),
            }
        }),
{
    let ghost ts = string_views(toks@);
    let ghost old_acc = acc@;
    let d = &defs[k];
    if !d.multiple && was_given(&acc.opts, k) {
        return (Some(ScanOutcome::Error(repeat_error(d))), i);
    }
    if d.takes_value {
        if i + 1 < toks.len() {
            let next = &toks[i + 1];
            assert(ts[i + 1] == next@);
            let nc = chars_of(next.as_str());
            let escape = same_text(next.as_str(), "--");
            if !escape && !is_long_tok(&nc) && !is_short_tok(&nc) {
                acc.opts.push((k, next.clone()));
                assert(acc@.opts =~= old_acc.opts.push((k, ts[i + 1])));
                assert(acc@ == ScannedV { opts: old_acc.opts.push((k, ts[i + 1])), ..old_acc });
                return (None, i + 2);
            }
            match unknown_option_of(defs, &nc) {
                Some(u) => {
                    return (Some(ScanOutcome::Error(unexpected_chars(&u))), i);
                },
                None => {},
            }
        }
        (Some(ScanOutcome::Missing(no_value(d))), i)
    } else {
        acc.opts.push((k, String::new()));
        assert(acc@.opts =~= old_acc.opts.push((k, Seq::empty())));
        assert(acc@ == ScannedV { opts: old_acc.opts.push((k, Seq::empty())), ..old_acc });
        (None, i + 1)
    }
}

/// Scans the tokens of a subcommand from position `from`.
pub fn scan_args(defs: &Vec<OptDef>, toks: &Vec<String>, from: usize) -> (r: ScanOutcome)
    requires
        from <= toks.len(),
    ensures
        outcome_view(r) == scan_from(
            defs@,
            string_views(toks@),
            from as int,
            ScannedV { opts: Seq::empty(), positionals: Seq::empty() },
        ),
{
    let ghost ts = string_views(toks@);
    let mut acc = Scanned { opts: Vec::new(), positionals: Vec::new() };
    let ghost start = ScannedV { opts: Seq::empty(), positionals: Seq::empty() };
    assert(acc@ == start) by {
        assert(acc@.opts =~= start.opts);
        assert(acc@.positionals =~= start.positionals);
    }
    let mut i: usize = from;
    while i < toks.len()
        invariant
            i <= toks.len(),
            ts == string_views(toks@),
            start == (ScannedV { opts: Seq::empty(), positionals: Seq::empty() }),
            scan_from(defs@, ts, from as int, start) == scan_from(defs@, ts, i as int, acc@),
        decreases toks.len() - i,
    {
        let t = &toks[i];
        let ghost tv = t@;
        assert(ts[i as int] == tv);
        let tc = chars_of(t.as_str());
        let ghost old_acc = acc@;
        proof {
            reveal_strlit("-h");
            reveal_strlit("--help");
            reveal_strlit("--");
        }
        if same_text(t.as_str(), "--") {
            let mut m: usize = i + 1;
            assert(ts.subrange(i + 1, i + 1) =~= Seq::<Seq<char>>::empty());
            assert(old_acc.positionals + ts.subrange(i + 1, m as int) =~= old_acc.positionals);
            while m < toks.len()
                invariant
                    i < m <= toks.len(),
                    ts == string_views(toks@),
                    acc@.opts == old_acc.opts,
                    acc@.positionals == old_acc.positionals + ts.subrange(i + 1, m as int),
                decreases toks.len() - m,
            {
                let ghost before = acc@.positionals;
                acc.positionals.push(toks[m].clone());
                assert(ts[m as int] == toks@[m as int]@);
                assert(acc@.positionals =~= before.push(ts[m as int]));
                assert(ts.subrange(i + 1, m + 1) =~= ts.subrange(i + 1, m as int).push(ts[m as int]));
                m = m + 1;
            }
            assert(ts.subrange(i + 1, toks.len() as int) =~= ts.skip(i + 1));
            let r = ScanOutcome::Done(acc);
            assert(scan_from(defs@, ts, i as int, old_acc) == outcome_view(r));
            return r;
        }
        if same_text(t.as_str(), "-h") || same_text(t.as_str(), "--help") {
            assert(scan_from(defs@, ts, i as int, acc@) == ScanV::Help);
            return ScanOutcome::Help;
        }
        if is_long_tok(&tc) {
            let body = crate::scan::slice_chars(&tc, 2, tc.len());
            assert(body@ =~= tv.skip(2));
            match split_first(&body, '=') {
                Some(nv) => {
                    match lookup_long(defs, &nv.0) {
                        Some(k) => {
                            let d = &defs[k];
                            if !d.takes_value {
                                let mut m = String::new();
                                m.append("unexpected value '");
                                crate::text::push_chars(&mut m, &nv.1);
                                m.append("' for '");
                                m.append(display(d).as_str());
                                m.append("' found; no more were expected");
                                let r = ScanOutcome::Error(m);
                                assert(scan_from(defs@, ts, i as int, acc@) == outcome_view(r));
                                return r;
                            }
                            if !d.multiple && was_given(&acc.opts, k) {
                                let r = ScanOutcome::Error(repeat_error(d));
                                assert(scan_from(defs@, ts, i as int, acc@) == outcome_view(r));
                                return r;
                            }
                            acc.opts.push((k, string_of(&nv.1)));
                            i = i + 1;
                            assert(acc@.opts =~= old_acc.opts.push((k, nv.1@)));
                            assert(acc@ == ScannedV { opts: old_acc.opts.push((k, nv.1@)), ..old_acc });
                        },
                        None => {
                            let help = chars_of("help");
                            let is_help = crate::scan::has_prefix(&nv.0, &help) && nv.0.len() == help.len();
                            proof {
                                reveal_strlit("help");
                                if is_help {
                                    assert(nv.0@.take(help@.len() as int) =~= nv.0@);
                                }
                                if nv.0@ == "help"@ {
                                    assert(nv.0@.take(help@.len() as int) =~= nv.0@);
                                }
                            }
                            let r = if is_help {
                                let mut m = String::new();
                                m.append("unexpected value '");
                                crate::text::push_chars(&mut m, &nv.1);
                                m.append("' for '--help' found; no more were expected");
                                ScanOutcome::Error(m)
                            } else {
                                ScanOutcome::Error(unexpected_long(&nv.0))
                            };
                            assert(scan_from(defs@, ts, i as int, acc@) == outcome_view(r));
                            return r;
                        },
                    }
                },
                None => {
                    match lookup_long(defs, &body) {
                        Some(k) => {
                            let (end, j) = take_opt(defs, toks, i, k, &mut acc);
                            match end {
                                Some(o) => {
                                    assert(scan_from(defs@, ts, i as int, old_acc) == outcome_view(o));
                                    return o;
                                },
                                None => {
                                    i = j;
                                },
                            }
                        },
                        None => {
                            let r = ScanOutcome::Error(unexpected(t));
                            assert(scan_from(defs@, ts, i as int, acc@) == outcome_view(r));
                            return r;
                        },
                    }
                },
            }
        } else if is_short_tok(&tc) {
            let c = tc[1];
            if c == 'h' {
                assert(scan_from(defs@, ts, i as int, acc@) == ScanV::Help);
                return ScanOutcome::Help;
            }
            match lookup_short(defs, c) {
                Some(k) => {
                    let d = &defs[k];
                    let ghost rest = tv.skip(2);
                    if tc.len() == 2 {
                        let (end, j) = take_opt(defs, toks, i, k, &mut acc);
                        match end {
                            Some(o) => {
                                assert(scan_from(defs@, ts, i as int, old_acc) == outcome_view(o));
                                return o;
                            },
                            None => {
                                i = j;
                            },
                        }
                    } else if !d.takes_value {
                        assert(rest[0] == tc@[2]);
                        let r = ScanOutcome::Error(unexpected_short(tc[2]));
                        assert(scan_from(defs@, ts, i as int, acc@) == outcome_view(r));
                        return r;
                    } else if !d.multiple && was_given(&acc.opts, k) {
                        let r = ScanOutcome::Error(repeat_error(d));
                        assert(scan_from(defs@, ts, i as int, acc@) == outcome_view(r));
                        return r;
                    } else {
                        let v = if tc[2] == '=' {
                            crate::scan::slice_chars(&tc, 3, tc.len())
                        } else {
                            crate::scan::slice_chars(&tc, 2, tc.len())
                        };
                        assert(v@ =~= attached_value(rest));
                        acc.opts.push((k, string_of(&v)));
                        i = i + 1;
                        assert(acc@.opts =~= old_acc.opts.push((k, attached_value(rest))));
                        assert(acc@ == ScannedV {
                            opts: old_acc.opts.push((k, attached_value(rest))),
                            ..old_acc
                        });
                    }
                },
                None => {
                    let r = ScanOutcome::Error(unexpected_short(c));
                    assert(scan_from(defs@, ts, i as int, acc@) == outcome_view(r));
                    return r;
                },
            }
        } else {
            acc.positionals.push(t.clone());
            assert(acc@.positionals =~= old_acc.positionals.push(tv));
            assert(acc@ == ScannedV { positionals: old_acc.positionals.push(tv), ..old_acc });
            i = i + 1;
        }
    }
    ScanOutcome::Done(acc)
}

} // verus!
