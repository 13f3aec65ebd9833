//! Reading a whole command line into a command, a help request, or an
//! error report.

use vstd::prelude::*;
use crate::cli::args::{
    bare_error_text, error_text, given, help, help_of, leaf_defs, leaf_defs_spec, outcome_view, scan_args,
    scan_from, scan_step, unexpected_msg, usage, usage_of, was_given, Leaf, ScanOutcome, ScanV, Scanned,
    ScannedV, MISSING_COMMAND, MISSING_RECIPE_COMMAND, RECIPE_HELP, RECIPE_USAGE, TOP_HELP,
    TOP_USAGE,
};
use crate::cli::crawl::OutputFormat;
use crate::config::string_views;
use crate::decimal::{parse_i64, parse_i64_spec, parse_u64, parse_u64_spec};
use crate::scan::{split_chars, split_first, split_on, split_once, views};
use crate::text::{chars_of, lowercase_of, push_chars, same_text, string_of};

verus! {

/// A command to run.
#[derive(Debug, Clone)]
pub enum Command {
    /// Start the feed crawler daemon.
    Run,
    /// Run a single crawl cycle and exit.
    Once,
    /// Open a browser tab for manual login.
    Login { site: String },
    /// List recent feed items from the database.
    List { site: Option<String>, limit: i64 },
    /// List crawl snapshots for a site.
    Snapshots { site: String, limit: i64 },
    /// Show a specific snapshot by ID.
    Snapshot { id: i32 },
    /// Dump recent feed items as JSON.
    Dump { hours: u64, sites: Vec<String>, compact: bool, ids: Vec<i32> },
    /// Show recent events from the event log.
    Events { limit: i64 },
    /// Crawl sites and print their items.
    Crawl {
        sites: Vec<String>,
        params: Vec<(String, String)>,
        limit: Option<usize>,
        format: OutputFormat,
        compact: bool,
        save: bool,
        notify: bool,
    },
    /// List the available recipes.
    RecipeList,
    /// Validate a site's recipe.
    RecipeValidate { site: String },
}

/// The view of a command.
pub enum CommandV {
    Run,
    Once,
    Login { site: Seq<char> },
    List { site: Option<Seq<char>>, limit: i64 },
    Snapshots { site: Seq<char>, limit: i64 },
    Snapshot { id: i32 },
    Dump { hours: u64, sites: Seq<Seq<char>>, compact: bool, ids: Seq<i32> },
    Events { limit: i64 },
    Crawl {
        sites: Seq<Seq<char>>,
        params: Seq<(Seq<char>, Seq<char>)>,
        limit: Option<usize>,
        format: OutputFormat,
        compact: bool,
        save: bool,
        notify: bool,
    },
    RecipeList,
    RecipeValidate { site: Seq<char> },
}

/// The views of a list of text pairs.
pub open spec fn pair_views(ps: Seq<(String, String)>) -> Seq<(Seq<char>, Seq<char>)> {
    ps.map_values(|p: (String, String)| (p.0@, p.1@))
}

impl View for Command {
    type V = CommandV;

    open spec fn view(&self) -> CommandV {
        match self {
            Command::Run => CommandV::Run,
            Command::Once => CommandV::Once,
            Command::Login { site } => CommandV::Login { site: site@ },
            Command::List { site, limit } => CommandV::List {
                site: match site {
                    Some(s) => Some(s@),
                    None => None,
                },
                limit: *limit,
            },
            Command::Snapshots { site, limit } => CommandV::Snapshots { site: site@, limit: *limit },
            Command::Snapshot { id } => CommandV::Snapshot { id: *id },
            Command::Dump { hours, sites, compact, ids } => CommandV::Dump {
                hours: *hours,
                sites: string_views(sites@),
                compact: *compact,
                ids: ids@,
            },
            Command::Events { limit } => CommandV::Events { limit: *limit },
            Command::Crawl { sites, params, limit, format, compact, save, notify } => CommandV::Crawl {
                sites: string_views(sites@),
                params: pair_views(params@),
                limit: *limit,
                format: *format,
                compact: *compact,
                save: *save,
                notify: *notify,
            },
            Command::RecipeList => CommandV::RecipeList,
            Command::RecipeValidate { site } => CommandV::RecipeValidate { site: site@ },
        }
    }
}

// ---------------------------------------------------------------------------
// Building a command from its scanned tokens
// ---------------------------------------------------------------------------

/// The values given to option `k`, in order.
pub open spec fn opt_values(opts: Seq<(usize, Seq<char>)>, k: usize) -> Seq<Seq<char>>
    decreases opts.len(),
{
    if opts.len() == 0 {
        Seq::empty()
    } else {
        let rest = opt_values(opts.drop_last(), k);
        if opts.last().0 == k {
            rest.push(opts.last().1)
        } else {
            rest
        }
    }
}

/// The message for missing required arguments.
pub open spec fn missing_msg(name: Seq<char>) -> Seq<char> {
    "the following required arguments were not provided:\n  "@ + name
}

/// The message for a value an argument does not accept.
pub open spec fn invalid_msg(v: Seq<char>, display: Seq<char>) -> Seq<char> {
    "invalid value '"@ + v + "' for '"@ + display + "'"@
}

/// No positional arguments are expected.
pub open spec fn no_positionals(pos: Seq<Seq<char>>) -> Result<(), Seq<char>> {
    if pos.len() > 0 {
        Err(unexpected_msg(pos[0]))
    } else {
        Ok(())
    }
}

/// Exactly one positional argument, named `name`, is expected.
pub open spec fn one_positional(pos: Seq<Seq<char>>, name: Seq<char>) -> Result<Seq<char>, Seq<char>> {
    if pos.len() == 0 {
        Err(missing_msg(name))
    } else if pos.len() > 1 {
        Err(unexpected_msg(pos[1]))
    } else {
        Ok(pos[0])
    }
}

/// An `i64` option with a default.
pub open spec fn i64_opt(opts: Seq<(usize, Seq<char>)>, k: usize, display: Seq<char>, default: i64) -> Result<i64, Seq<char>> {
    let vs = opt_values(opts, k);
    if vs.len() == 0 {
        Ok(default)
    } else {
        match parse_i64_spec(vs[0]) {
            Some(n) => Ok(n),
            None => Err(invalid_msg(vs[0], display)),
        }
    }
}

/// A `u64` option with a default.
pub open spec fn u64_opt(opts: Seq<(usize, Seq<char>)>, k: usize, display: Seq<char>, default: u64) -> Result<u64, Seq<char>> {
    let vs = opt_values(opts, k);
    if vs.len() == 0 {
        Ok(default)
    } else {
        match parse_u64_spec(vs[0]) {
            Some(n) => Ok(n),
            None => Err(invalid_msg(vs[0], display)),
        }
    }
}

/// A text read as an `i32`.
pub open spec fn i32_of(v: Seq<char>, display: Seq<char>) -> Result<i32, Seq<char>> {
    match parse_i64_spec(v) {
        Some(n) => if i32::MIN <= n <= i32::MAX {
            Ok(n as i32)
        } else {
            Err(invalid_msg(v, display))
        },
        None => Err(invalid_msg(v, display)),
    }
}

/// The ids of comma-separated pieces.
pub open spec fn ids_of_pieces(ps: Seq<Seq<char>>) -> Result<Seq<i32>, Seq<char>>
    decreases ps.len(),
{
    if ps.len() == 0 {
        Ok(Seq::empty())
    } else {
        match ids_of_pieces(ps.drop_last()) {
            Ok(a) => match i32_of(ps.last(), "--ids <IDS>"@) {
                Ok(n) => Ok(a.push(n)),
                Err(e) => Err(e),
            },
            Err(e) => Err(e),
        }
    }
}

/// The ids of the `--ids` values, each a comma-separated list.
pub open spec fn ids_of(vals: Seq<Seq<char>>) -> Result<Seq<i32>, Seq<char>>
    decreases vals.len(),
{
    if vals.len() == 0 {
        Ok(Seq::empty())
    } else {
        match ids_of(vals.drop_last()) {
            Ok(a) => match ids_of_pieces(split_on(vals.last(), ',')) {
                Ok(b) => Ok(a + b),
                Err(e) => Err(e),
            },
            Err(e) => Err(e),
        }
    }
}

/// The sites of the crawl arguments, each a comma-separated list.
pub open spec fn sites_of(pos: Seq<Seq<char>>) -> Seq<Seq<char>>
    decreases pos.len(),
{
    if pos.len() == 0 {
        Seq::empty()
    } else {
        sites_of(pos.drop_last()) + split_on(pos.last(), ',')
    }
}

/// The recipe options of the `--param KEY=VALUE` values: each becomes
/// (`param.KEY`, `VALUE`), split at the first `=`.
pub open spec fn params_of(vals: Seq<Seq<char>>) -> Result<Seq<(Seq<char>, Seq<char>)>, Seq<char>>
    decreases vals.len(),
{
    if vals.len() == 0 {
        Ok(Seq::empty())
    } else {
        match params_of(vals.drop_last()) {
            Ok(a) => match split_once(vals.last(), '=') {
                Some(kv) => Ok(a.push(("param."@ + kv.0, kv.1))),
                None => Err(invalid_msg(vals.last(), "--param <KEY=VALUE>"@)),
            },
            Err(e) => Err(e),
        }
    }
}

/// The crawl limit: none, or a decimal that fits `usize`.
pub open spec fn limit_of(vals: Seq<Seq<char>>) -> Result<Option<usize>, Seq<char>> {
    if vals.len() == 0 {
        Ok(None)
    } else {
        match parse_u64_spec(vals[0]) {
            Some(n) => if n <= usize::MAX {
                Ok(Some(n as usize))
            } else {
                Err(invalid_msg(vals[0], "--limit <LIMIT>"@))
            },
            None => Err(invalid_msg(vals[0], "--limit <LIMIT>"@)),
        }
    }
}

/// The output format: JSON unless given, read without regard to case.
pub open spec fn format_of(vals: Seq<Seq<char>>) -> Result<OutputFormat, Seq<char>> {
    if vals.len() == 0 {
        Ok(OutputFormat::Json)
    } else {
        let v = vals[0];
        if lowercase_of(v) == "json"@ {
            Ok(OutputFormat::Json)
        } else if lowercase_of(v) == "jsonl"@ {
            Ok(OutputFormat::Jsonl)
        } else if lowercase_of(v) == "table"@ {
            Ok(OutputFormat::Table)
        } else {
            Err(invalid_msg(v, "--format <FORMAT>"@) + ": unknown format: "@ + v)
        }
    }
}

/// The command that the scanned tokens of a subcommand make, or the
/// message saying why they make none.
pub open spec fn build_spec(l: Leaf, s: ScannedV) -> Result<CommandV, Seq<char>> {
    let o = s.opts;
    let p = s.positionals;
    match l {
        Leaf::Run => match no_positionals(p) {
            Ok(_) => Ok(CommandV::Run),
            Err(e) => Err(e),
        },
        Leaf::Once => match no_positionals(p) {
            Ok(_) => Ok(CommandV::Once),
            Err(e) => Err(e),
        },
        Leaf::Login => match one_positional(p, "<SITE>"@) {
            Ok(site) => Ok(CommandV::Login { site }),
            Err(e) => Err(e),
        },
        Leaf::List => match no_positionals(p) {
            Err(e) => Err(e),
            Ok(_) => match i64_opt(o, 1, "--limit <LIMIT>"@, 20) {
                Ok(limit) => Ok(
                    CommandV::List {
                        site: if opt_values(o, 0).len() > 0 {
                            Some(opt_values(o, 0)[0])
                        } else {
                            None
                        },
                        limit,
                    },
                ),
                Err(e) => Err(e),
            },
        },
        Leaf::Snapshots => match one_positional(p, "<SITE>"@) {
            Err(e) => Err(e),
            Ok(site) => match i64_opt(o, 0, "--limit <LIMIT>"@, 10) {
                Ok(limit) => Ok(CommandV::Snapshots { site, limit }),
                Err(e) => Err(e),
            },
        },
        Leaf::Snapshot => match one_positional(p, "<ID>"@) {
            Err(e) => Err(e),
            Ok(v) => match i32_of(v, "<ID>"@) {
                Ok(id) => Ok(CommandV::Snapshot { id }),
                Err(e) => Err(e),
            },
        },
        Leaf::Dump => match no_positionals(p) {
            Err(e) => Err(e),
            Ok(_) => match u64_opt(o, 0, "--hours <HOURS>"@, 24) {
                Err(e) => Err(e),
                Ok(hours) => match ids_of(opt_values(o, 3)) {
                    Err(e) => Err(e),
                    Ok(ids) => Ok(
                        CommandV::Dump {
                            hours,
                            sites: opt_values(o, 1),
                            compact: given(o, 2),
                            ids,
                        },
                    ),
                },
            },
        },
        Leaf::Events => match no_positionals(p) {
            Err(e) => Err(e),
            Ok(_) => match i64_opt(o, 0, "--limit <LIMIT>"@, 20) {
                Ok(limit) => Ok(CommandV::Events { limit }),
                Err(e) => Err(e),
            },
        },
        Leaf::Crawl => if p.len() == 0 {
            Err(missing_msg("<SITES>..."@))
        } else {
            match params_of(opt_values(o, 0)) {
                Err(e) => Err(e),
                Ok(params) => match limit_of(opt_values(o, 1)) {
                    Err(e) => Err(e),
                    Ok(limit) => match format_of(opt_values(o, 2)) {
                        Err(e) => Err(e),
                        Ok(format) => Ok(
                            CommandV::Crawl {
                                sites: sites_of(p),
                                params,
                                limit,
                                format,
                                compact: given(o, 3),
                                save: given(o, 4),
                                notify: given(o, 5),
                            },
                        ),
                    },
                },
            }
        },
        Leaf::RecipeList => match no_positionals(p) {
            Ok(_) => Ok(CommandV::RecipeList),
            Err(e) => Err(e),
        },
        Leaf::RecipeValidate => match one_positional(p, "<SITE>"@) {
            Ok(site) => Ok(CommandV::RecipeValidate { site }),
            Err(e) => Err(e),
        },
    }
}

/// The view of the options of a scan.
pub open spec fn opts_view(opts: Seq<(usize, String)>) -> Seq<(usize, Seq<char>)> {
    opts.map_values(|p: (usize, String)| (p.0, p.1@))
}

fn values_of(opts: &Vec<(usize, String)>, k: usize) -> (r: Vec<String>)
    ensures
        string_views(r@) == opt_values(opts_view(opts@), k),
{
    let ghost ov = opts_view(opts@);
    let mut r: Vec<String> = Vec::new();
    let mut i: usize = 0;
    assert(ov.take(0) =~= Seq::<(usize, Seq<char>)>::empty());
    assert(string_views(r@) =~= opt_values(ov.take(0), k));
    while i < opts.len()
        invariant
            i <= opts.len(),
            ov == opts_view(opts@),
            string_views(r@) == opt_values(ov.take(i as int), k),
        decreases opts.len() - i,
    {
        assert(ov.take(i + 1).drop_last() =~= ov.take(i as int));
        assert(ov.take(i + 1).last() == (opts@[i as int].0, opts@[i as int].1@));
        if opts[i].0 == k {
            let ghost before = r@;
            r.push(opts[i].1.clone());
            assert(string_views(r@) =~= string_views(before).push(opts@[i as int].1@));
        }
        i = i + 1;
    }
    assert(ov.take(opts.len() as int) =~= ov);
    r
}

fn missing(name: &str) -> (r: String)
    ensures
        r@ == missing_msg(name@),
{
    let mut r = String::new();
    r.append("the following required arguments were not provided:\n  ");
    r.append(name);
    r
}

fn invalid(v: &str, display: &str) -> (r: String)
    ensures
        r@ == invalid_msg(v@, display@),
{
    let mut r = String::new();
    r.append("invalid value '");
    r.append(v);
    r.append("' for '");
    r.append(display);
    r.append("'");
    r
}

fn unexpected_text(t: &String) -> (r: String)
    ensures
        r@ == unexpected_msg(t@),
{
    let mut r = String::new();
    r.append("unexpected argument '");
    r.append(t.as_str());
    r.append("' found");
    r
}

fn check_no_positionals(pos: &Vec<String>) -> (r: Result<(), String>)
    ensures
        match r {
            Ok(_) => no_positionals(string_views(pos@)) is Ok,
            Err(e) => no_positionals(string_views(pos@)) == Err::<(), Seq<char>>(e@),
        },
{
    if pos.len() > 0 {
        Err(unexpected_text(&pos[0]))
    } else {
        Ok(())
    }
}

fn take_one_positional(pos: &Vec<String>, name: &str) -> (r: Result<String, String>)
    ensures
        match r {
            Ok(s) => one_positional(string_views(pos@), name@) == Ok::<Seq<char>, Seq<char>>(s@),
            Err(e) => one_positional(string_views(pos@), name@) == Err::<Seq<char>, Seq<char>>(e@),
        },
{
    if pos.len() == 0 {
        Err(missing(name))
    } else if pos.len() > 1 {
        Err(unexpected_text(&pos[1]))
    } else {
        Ok(pos[0].clone())
    }
}

fn read_i64_opt(opts: &Vec<(usize, String)>, k: usize, display: &str, default: i64) -> (r: Result<i64, String>)
    ensures
        match r {
            Ok(n) => i64_opt(opts_view(opts@), k, display@, default) == Ok::<i64, Seq<char>>(n),
            Err(e) => i64_opt(opts_view(opts@), k, display@, default) == Err::<i64, Seq<char>>(e@),
        },
{
    let vs = values_of(opts, k);
    if vs.len() == 0 {
        return Ok(default);
    }
    assert(string_views(vs@)[0] == vs@[0]@);
    match parse_i64(&chars_of(vs[0].as_str())) {
        Some(n) => Ok(n),
        None => Err(invalid(vs[0].as_str(), display)),
    }
}

fn read_u64_opt(opts: &Vec<(usize, String)>, k: usize, display: &str, default: u64) -> (r: Result<u64, String>)
    ensures
        match r {
            Ok(n) => u64_opt(opts_view(opts@), k, display@, default) == Ok::<u64, Seq<char>>(n),
            Err(e) => u64_opt(opts_view(opts@), k, display@, default) == Err::<u64, Seq<char>>(e@),
        },
{
    let vs = values_of(opts, k);
    if vs.len() == 0 {
        return Ok(default);
    }
    assert(string_views(vs@)[0] == vs@[0]@);
    match parse_u64(&chars_of(vs[0].as_str())) {
        Some(n) => Ok(n),
        None => Err(invalid(vs[0].as_str(), display)),
    }
}

fn read_i32(v: &Vec<char>, display: &str) -> (r: Result<i32, String>)
    ensures
        match r {
            Ok(n) => i32_of(v@, display@) == Ok::<i32, Seq<char>>(n),
            Err(e) => i32_of(v@, display@) == Err::<i32, Seq<char>>(e@),
        },
{
    match parse_i64(v) {
        Some(n) => {
            if -2147483648 <= n && n <= 2147483647 {
                Ok(n as i32)
            } else {
                Err(invalid(string_of(v).as_str(), display))
            }
        },
        None => Err(invalid(string_of(v).as_str(), display)),
    }
}

fn read_ids(vals: &Vec<String>) -> (r: Result<Vec<i32>, String>)
    ensures
        match r {
            Ok(ids) => ids_of(string_views(vals@)) == Ok::<Seq<i32>, Seq<char>>(ids@),
            Err(e) => ids_of(string_views(vals@)) == Err::<Seq<i32>, Seq<char>>(e@),
        },
{
    let ghost vv = string_views(vals@);
    let mut ids: Vec<i32> = Vec::new();
    let mut i: usize = 0;
    assert(vv.take(0) =~= Seq::<Seq<char>>::empty());
    while i < vals.len()
        invariant
            i <= vals.len(),
            vv == string_views(vals@),
            ids_of(vv.take(i as int)) == Ok::<Seq<i32>, Seq<char>>(ids@),
        decreases vals.len() - i,
    {
        assert(vv.take(i + 1).drop_last() =~= vv.take(i as int));
        assert(vv.take(i + 1).last() == vals@[i as int]@);
        let pieces = split_chars(&chars_of(vals[i].as_str()), ',');
        let ghost pv = views(pieces@);
        let ghost base = ids@;
        let mut j: usize = 0;
        assert(pv.take(0) =~= Seq::<Seq<char>>::empty());
        assert(ids@ =~= base + Seq::<i32>::empty());
        while j < pieces.len()
            invariant
                j <= pieces.len(),
                pv == views(pieces@),
                i < vals.len(),
                vv == string_views(vals@),
                pv == split_on(vv[i as int], ','),
                ids_of(vv.take(i as int)) == Ok::<Seq<i32>, Seq<char>>(base),
                vv.take(i + 1).drop_last() == vv.take(i as int),
                vv.take(i + 1).last() == vv[i as int],
                ids_of_pieces(pv.take(j as int)) matches Ok(b) && ids@ == base + b,
            decreases pieces.len() - j,
        {
            assert(pv.take(j + 1).drop_last() =~= pv.take(j as int));
            assert(pv.take(j + 1).last() == pieces@[j as int]@);
            match read_i32(&pieces[j], "--ids <IDS>") {
                Ok(n) => {
                    let ghost before = ids@;
                    ids.push(n);
                    proof {
                        let b = ids_of_pieces(pv.take(j as int))->Ok_0;
                        assert(ids@ =~= base + b.push(n));
                    }
                },
                Err(e) => {
                    proof {
                        assert(pv.take(pieces.len() as int) =~= pv);
                        lemma_ids_pieces_err(pv, j as int);
                    }
                    assert(ids_of(vv.take(i + 1)) == Err::<Seq<i32>, Seq<char>>(e@));
                    proof {
                        lemma_ids_err(vv, i as int + 1);
                    }
                    return Err(e);
                },
            }
            j = j + 1;
        }
        assert(pv.take(pieces.len() as int) =~= pv);
        i = i + 1;
    }
    assert(vv.take(vals.len() as int) =~= vv);
    Ok(ids)
}

proof fn lemma_ids_pieces_err(ps: Seq<Seq<char>>, j: int)
    requires
        0 <= j < ps.len(),
        ids_of_pieces(ps.take(j + 1)) is Err,
    ensures
        ids_of_pieces(ps) == ids_of_pieces(ps.take(j + 1)),
    decreases ps.len() - j,
{
    if j + 1 < ps.len() {
        assert(ps.take(j + 2).drop_last() =~= ps.take(j + 1));
        lemma_ids_pieces_err(ps, j + 1);
    } else {
        assert(ps.take(j + 1) =~= ps);
    }
}

proof fn lemma_ids_err(vs: Seq<Seq<char>>, n: int)
    requires
        0 < n <= vs.len(),
        ids_of(vs.take(n)) is Err,
    ensures
        ids_of(vs) == ids_of(vs.take(n)),
    decreases vs.len() - n,
{
    if n < vs.len() {
        assert(vs.take(n + 1).drop_last() =~= vs.take(n));
        lemma_ids_err(vs, n + 1);
    } else {
        assert(vs.take(n) =~= vs);
    }
}

fn read_sites(pos: &Vec<String>) -> (r: Vec<String>)
    ensures
        string_views(r@) == sites_of(string_views(pos@)),
{
    let ghost pv = string_views(pos@);
    let mut sites: Vec<String> = Vec::new();
    let mut i: usize = 0;
    assert(pv.take(0) =~= Seq::<Seq<char>>::empty());
    assert(string_views(sites@) =~= sites_of(pv.take(0)));
    while i < pos.len()
        invariant
            i <= pos.len(),
            pv == string_views(pos@),
            string_views(sites@) == sites_of(pv.take(i as int)),
        decreases pos.len() - i,
    {
        assert(pv.take(i + 1).drop_last() =~= pv.take(i as int));
        assert(pv.take(i + 1).last() == pos@[i as int]@);
        let pieces = split_chars(&chars_of(pos[i].as_str()), ',');
        let ghost base = string_views(sites@);
        let mut j: usize = 0;
        assert(string_views(sites@) =~= base + views(pieces@).take(0));
        while j < pieces.len()
            invariant
                j <= pieces.len(),
                string_views(sites@) == base + views(pieces@).take(j as int),
            decreases pieces.len() - j,
        {
            let ghost before = sites@;
            sites.push(string_of(&pieces[j]));
            assert(string_views(sites@) =~= string_views(before).push(pieces@[j as int]@));
            assert(views(pieces@).take(j + 1) =~= views(pieces@).take(j as int).push(pieces@[j as int]@));
            j = j + 1;
        }
        assert(views(pieces@).take(pieces.len() as int) =~= views(pieces@));
        i = i + 1;
    }
    assert(pv.take(pos.len() as int) =~= pv);
    sites
}

fn read_params(vals: &Vec<String>) -> (r: Result<Vec<(String, String)>, String>)
    ensures
        match r {
            Ok(ps) => params_of(string_views(vals@)) == Ok::<Seq<(Seq<char>, Seq<char>)>, Seq<char>>(pair_views(ps@)),
            Err(e) => params_of(string_views(vals@)) == Err::<Seq<(Seq<char>, Seq<char>)>, Seq<char>>(e@),
        },
{
    let ghost vv = string_views(vals@);
    let mut ps: Vec<(String, String)> = Vec::new();
    let mut i: usize = 0;
    assert(vv.take(0) =~= Seq::<Seq<char>>::empty());
    assert(pair_views(ps@) =~= Seq::<(Seq<char>, Seq<char>)>::empty());
    while i < vals.len()
        invariant
            i <= vals.len(),
            vv == string_views(vals@),
            params_of(vv.take(i as int)) == Ok::<Seq<(Seq<char>, Seq<char>)>, Seq<char>>(pair_views(ps@)),
        decreases vals.len() - i,
    {
        assert(vv.take(i + 1).drop_last() =~= vv.take(i as int));
        assert(vv.take(i + 1).last() == vals@[i as int]@);
        match split_first(&chars_of(vals[i].as_str()), '=') {
            Some(kv) => {
                let mut key = String::new();
                key.append("param.");
                push_chars(&mut key, &kv.0);
                let ghost before = ps@;
                ps.push((key, string_of(&kv.1)));
                assert(pair_views(ps@) =~= pair_views(before).push(("param."@ + kv.0@, kv.1@)));
            },
            None => {
                let e = invalid(vals[i].as_str(), "--param <KEY=VALUE>");
                proof {
                    lemma_params_err(vv, i as int + 1);
                }
                return Err(e);
            },
        }
        i = i + 1;
    }
    assert(vv.take(vals.len() as int) =~= vv);
    Ok(ps)
}

proof fn lemma_params_err(vs: Seq<Seq<char>>, n: int)
    requires
        0 < n <= vs.len(),
        params_of(vs.take(n)) is Err,
    ensures
        params_of(vs) == params_of(vs.take(n)),
    decreases vs.len() - n,
{
    if n < vs.len() {
        assert(vs.take(n + 1).drop_last() =~= vs.take(n));
        lemma_params_err(vs, n + 1);
    } else {
        assert(vs.take(n) =~= vs);
    }
}

fn read_limit(vals: &Vec<String>) -> (r: Result<Option<usize>, String>)
    ensures
        match r {
            Ok(l) => limit_of(string_views(vals@)) == Ok::<Option<usize>, Seq<char>>(l),
            Err(e) => limit_of(string_views(vals@)) == Err::<Option<usize>, Seq<char>>(e@),
        },
{
    if vals.len() == 0 {
        return Ok(None);
    }
    assert(string_views(vals@)[0] == vals@[0]@);
    match parse_u64(&chars_of(vals[0].as_str())) {
        Some(n) => {
            if n <= usize::MAX as u64 {
                Ok(Some(n as usize))
            } else {
                Err(invalid(vals[0].as_str(), "--limit <LIMIT>"))
            }
        },
        None => Err(invalid(vals[0].as_str(), "--limit <LIMIT>")),
    }
}

fn read_format(vals: &Vec<String>) -> (r: Result<OutputFormat, String>)
    ensures
        match r {
            Ok(f) => format_of(string_views(vals@)) == Ok::<OutputFormat, Seq<char>>(f),
            Err(e) => format_of(string_views(vals@)) == Err::<OutputFormat, Seq<char>>(e@),
        },
{
    if vals.len() == 0 {
        return Ok(OutputFormat::Json);
    }
    assert(string_views(vals@)[0] == vals@[0]@);
    proof {
        reveal_strlit("json");
        reveal_strlit("jsonl");
        reveal_strlit("table");
        assert("json"@.len() == 4 && "jsonl"@.len() == 5 && "table"@.len() == 5);
        assert("json"@ != "jsonl"@);
        assert("table"@[0] != "json"@[0] && "table"@[0] != "jsonl"@[0]);
    }
    match OutputFormat::parse(vals[0].as_str()) {
        Ok(f) => Ok(f),
        Err(_) => {
            let mut e = invalid(vals[0].as_str(), "--format <FORMAT>");
            e.append(": unknown format: ");
            e.append(vals[0].as_str());
            Err(e)
        },
    }
}

/// Builds the command of a subcommand from its scanned tokens.
pub fn build(l: Leaf, s: Scanned) -> (r: Result<Command, String>)
    ensures
        match r {
            Ok(c) => build_spec(l, s@) == Ok::<CommandV, Seq<char>>(c@),
            Err(e) => build_spec(l, s@) == Err::<CommandV, Seq<char>>(e@),
        },
{
    let ghost o = s@.opts;
    assert(o == opts_view(s.opts@));
    match l {
        Leaf::Run => match check_no_positionals(&s.positionals) {
            Ok(_) => Ok(Command::Run),
            Err(e) => Err(e),
        },
        Leaf::Once => match check_no_positionals(&s.positionals) {
            Ok(_) => Ok(Command::Once),
            Err(e) => Err(e),
        },
        Leaf::Login => match take_one_positional(&s.positionals, "<SITE>") {
            Ok(site) => Ok(Command::Login { site }),
            Err(e) => Err(e),
        },
        Leaf::List => match check_no_positionals(&s.positionals) {
            Err(e) => Err(e),
            Ok(_) => match read_i64_opt(&s.opts, 1, "--limit <LIMIT>", 20) {
                Ok(limit) => {
                    let sites = values_of(&s.opts, 0);
                    let site = if sites.len() > 0 {
                        assert(string_views(sites@)[0] == sites@[0]@);
                        Some(sites[0].clone())
                    } else {
                        None
                    };
                    Ok(Command::List { site, limit })
                },
                Err(e) => Err(e),
            },
        },
        Leaf::Snapshots => match take_one_positional(&s.positionals, "<SITE>") {
            Err(e) => Err(e),
            Ok(site) => match read_i64_opt(&s.opts, 0, "--limit <LIMIT>", 10) {
                Ok(limit) => Ok(Command::Snapshots { site, limit }),
                Err(e) => Err(e),
            },
        },
        Leaf::Snapshot => match take_one_positional(&s.positionals, "<ID>") {
            Err(e) => Err(e),
            Ok(v) => match read_i32(&chars_of(v.as_str()), "<ID>") {
                Ok(id) => Ok(Command::Snapshot { id }),
                Err(e) => Err(e),
            },
        },
        Leaf::Dump => match check_no_positionals(&s.positionals) {
            Err(e) => Err(e),
            Ok(_) => match read_u64_opt(&s.opts, 0, "--hours <HOURS>", 24) {
                Err(e) => Err(e),
                Ok(hours) => match read_ids(&values_of(&s.opts, 3)) {
                    Err(e) => Err(e),
                    Ok(ids) => {
                        let sites = values_of(&s.opts, 1);
                        let compact = was_given(&s.opts, 2);
                        Ok(Command::Dump { hours, sites, compact, ids })
                    },
                },
            },
        },
        Leaf::Events => match check_no_positionals(&s.positionals) {
            Err(e) => Err(e),
            Ok(_) => match read_i64_opt(&s.opts, 0, "--limit <LIMIT>", 20) {
                Ok(limit) => Ok(Command::Events { limit }),
                Err(e) => Err(e),
            },
        },
        Leaf::Crawl => {
            if s.positionals.len() == 0 {
                return Err(missing("<SITES>..."));
            }
            match read_params(&values_of(&s.opts, 0)) {
                Err(e) => Err(e),
                Ok(params) => match read_limit(&values_of(&s.opts, 1)) {
                    Err(e) => Err(e),
                    Ok(limit) => match read_format(&values_of(&s.opts, 2)) {
                        Err(e) => Err(e),
                        Ok(format) => {
                            let sites = read_sites(&s.positionals);
                            let compact = was_given(&s.opts, 3);
                            let save = was_given(&s.opts, 4);
                            let notify = was_given(&s.opts, 5);
                            Ok(Command::Crawl { sites, params, limit, format, compact, save, notify })
                        },
                    },
                },
            }
        },
        Leaf::RecipeList => match check_no_positionals(&s.positionals) {
            Ok(_) => Ok(Command::RecipeList),
            Err(e) => Err(e),
        },
        Leaf::RecipeValidate => match take_one_positional(&s.positionals, "<SITE>") {
            Ok(site) => Ok(Command::RecipeValidate { site }),
            Err(e) => Err(e),
        },
    }
}


// ---------------------------------------------------------------------------
// The whole command line
// ---------------------------------------------------------------------------

/// What a command line asks for: a command to run, a help text to print
/// (successfully), or an error report to print (as a failure).
#[derive(Debug, Clone)]
pub enum CliParse {
    Run(Command),
    Help(String),
    Fail(String),
}

/// The view of a parsed command line.
pub enum CliV {
    Run(CommandV),
    Help(Seq<char>),
    Fail(Seq<char>),
}

/// The view of a parsed command line.
pub open spec fn cli_view(c: CliParse) -> CliV {
    match c {
        CliParse::Run(cmd) => CliV::Run(cmd@),
        CliParse::Help(h) => CliV::Help(h@),
        CliParse::Fail(e) => CliV::Fail(e@),
    }
}

/// The top-level subcommand a token names (other than `recipe` and `help`).
pub open spec fn leaf_named(t: Seq<char>) -> Option<Leaf> {
    if t == "run"@ {
        Some(Leaf::Run)
    } else if t == "once"@ {
        Some(Leaf::Once)
    } else if t == "login"@ {
        Some(Leaf::Login)
    } else if t == "list"@ {
        Some(Leaf::List)
    } else if t == "snapshots"@ {
        Some(Leaf::Snapshots)
    } else if t == "snapshot"@ {
        Some(Leaf::Snapshot)
    } else if t == "dump"@ {
        Some(Leaf::Dump)
    } else if t == "events"@ {
        Some(Leaf::Events)
    } else if t == "crawl"@ {
        Some(Leaf::Crawl)
    } else {
        None
    }
}

/// What the tokens of subcommand `l`, from position `from` on, ask for.
pub open spec fn leaf_spec(l: Leaf, toks: Seq<Seq<char>>, from: int) -> CliV {
    match scan_from(
        leaf_defs_spec(l),
        toks,
        from,
        ScannedV { opts: Seq::empty(), positionals: Seq::empty() },
    ) {
        ScanV::Help => CliV::Help(help_of(l)),
        ScanV::Error(m) => CliV::Fail(error_text(m, usage_of(l))),
        ScanV::Missing(m) => CliV::Fail(bare_error_text(m)),
        ScanV::Done(s) => match build_spec(l, s) {
            Ok(c) => CliV::Run(c),
            Err(m) => CliV::Fail(error_text(m, usage_of(l))),
        },
    }
}

/// The message for a token that names no subcommand.
pub open spec fn unrecognized_msg(t: Seq<char>) -> Seq<char> {
    "unrecognized subcommand '"@ + t + "'"@
}

/// The report for a token where a subcommand was expected.
pub open spec fn stray_token(t: Seq<char>, usage: Seq<char>) -> CliV {
    if t.len() > 1 && t[0] == '-' {
        CliV::Fail(error_text(unexpected_msg(t), usage))
    } else {
        CliV::Fail(error_text(unrecognized_msg(t), usage))
    }
}

/// What `recipe ...` asks for.
pub open spec fn recipe_spec(toks: Seq<Seq<char>>) -> CliV {
    if toks.len() < 2 {
        CliV::Fail(MISSING_RECIPE_COMMAND@)
    } else {
        let t = toks[1];
        if t == "-h"@ || t == "--help"@ {
            CliV::Help(RECIPE_HELP@)
        } else if t == "help"@ {
            if toks.len() < 3 {
                CliV::Help(RECIPE_HELP@)
            } else if toks[2] == "list"@ {
                CliV::Help(help_of(Leaf::RecipeList))
            } else if toks[2] == "validate"@ {
                CliV::Help(help_of(Leaf::RecipeValidate))
            } else {
                CliV::Fail(error_text(unrecognized_msg(toks[2]), RECIPE_USAGE@))
            }
        } else if t == "list"@ {
            leaf_spec(Leaf::RecipeList, toks, 2)
        } else if t == "validate"@ {
            leaf_spec(Leaf::RecipeValidate, toks, 2)
        } else {
            stray_token(t, RECIPE_USAGE@)
        }
    }
}

/// What a command line (without the program name) asks for.
pub open spec fn cli_spec(toks: Seq<Seq<char>>) -> CliV {
    if toks.len() == 0 {
        CliV::Fail(MISSING_COMMAND@)
    } else {
        let t = toks[0];
        if t == "-h"@ || t == "--help"@ {
            CliV::Help(TOP_HELP@)
        } else if t == "help"@ {
            if toks.len() < 2 {
                CliV::Help(TOP_HELP@)
            } else if toks[1] == "recipe"@ {
                CliV::Help(RECIPE_HELP@)
            } else {
                match leaf_named(toks[1]) {
                    Some(l) => CliV::Help(help_of(l)),
                    None => CliV::Fail(error_text(unrecognized_msg(toks[1]), TOP_USAGE@)),
                }
            }
        } else if t == "recipe"@ {
            recipe_spec(toks)
        } else {
            match leaf_named(t) {
                Some(l) => leaf_spec(l, toks, 1),
                None => stray_token(t, TOP_USAGE@),
            }
        }
    }
}

fn named_leaf(t: &str) -> (r: Option<Leaf>)
    ensures
        r == leaf_named(t@),
{
    if same_text(t, "run") {
        Some(Leaf::Run)
    } else if same_text(t, "once") {
        Some(Leaf::Once)
    } else if same_text(t, "login") {
        Some(Leaf::Login)
    } else if same_text(t, "list") {
        Some(Leaf::List)
    } else if same_text(t, "snapshots") {
        Some(Leaf::Snapshots)
    } else if same_text(t, "snapshot") {
        Some(Leaf::Snapshot)
    } else if same_text(t, "dump") {
        Some(Leaf::Dump)
    } else if same_text(t, "events") {
        Some(Leaf::Events)
    } else if same_text(t, "crawl") {
        Some(Leaf::Crawl)
    } else {
        None
    }
}

fn to_string(s: &str) -> (r: String)
    ensures
        r@ == s@,
{
    let mut r = String::new();
    r.append(s);
    assert(r@ =~= s@);
    r
}

fn fail_report(msg: String, usage: &str) -> (r: CliParse)
    ensures
        cli_view(r) == CliV::Fail(error_text(msg@, usage@)),
{
    let mut e = String::new();
    e.append("error: ");
    e.append(msg.as_str());
    e.append("\n\nUsage: ");
    e.append(usage);
    e.append("\n\nFor more information, try '--help'.\n");
    CliParse::Fail(e)
}

fn bare_fail_report(msg: String) -> (r: CliParse)
    ensures
        cli_view(r) == CliV::Fail(bare_error_text(msg@)),
{
    let mut e = String::new();
    e.append("error: ");
    e.append(msg.as_str());
    e.append("\n\nFor more information, try '--help'.\n");
    CliParse::Fail(e)
}

fn run_leaf(l: Leaf, toks: &Vec<String>, from: usize) -> (r: CliParse)
    requires
        from <= toks.len(),
    ensures
        cli_view(r) == leaf_spec(l, string_views(toks@), from as int),
{
    let defs = leaf_defs(l);
    match scan_args(&defs, toks, from) {
        ScanOutcome::Help => CliParse::Help(to_string(help(l))),
        ScanOutcome::Error(m) => fail_report(m, usage(l)),
        ScanOutcome::Missing(m) => bare_fail_report(m),
        ScanOutcome::Done(s) => match build(l, s) {
            Ok(c) => CliParse::Run(c),
            Err(m) => fail_report(m, usage(l)),
        },
    }
}

fn stray(t: &String, usage: &str) -> (r: CliParse)
    ensures
        cli_view(r) == stray_token(t@, usage@),
{
    let tc = chars_of(t.as_str());
    if tc.len() > 1 && tc[0] == '-' {
        fail_report(unexpected_text(t), usage)
    } else {
        let mut m = String::new();
        m.append("unrecognized subcommand '");
        m.append(t.as_str());
        m.append("'");
        fail_report(m, usage)
    }
}

fn is_help_flag(t: &String) -> (r: bool)
    ensures
        r == (t@ == "-h"@ || t@ == "--help"@),
{
    same_text(t.as_str(), "-h") || same_text(t.as_str(), "--help")
}

fn parse_recipe(toks: &Vec<String>) -> (r: CliParse)
    ensures
        cli_view(r) == recipe_spec(string_views(toks@)),
{
    let ghost ts = string_views(toks@);
    if toks.len() < 2 {
        return CliParse::Fail(to_string(MISSING_RECIPE_COMMAND));
    }
    let t = &toks[1];
    assert(ts[1] == t@);
    if is_help_flag(t) {
        CliParse::Help(to_string(RECIPE_HELP))
    } else if same_text(t.as_str(), "help") {
        if toks.len() < 3 {
            CliParse::Help(to_string(RECIPE_HELP))
        } else {
            assert(ts[2] == toks@[2]@);
            if same_text(toks[2].as_str(), "list") {
                CliParse::Help(to_string(help(Leaf::RecipeList)))
            } else if same_text(toks[2].as_str(), "validate") {
                CliParse::Help(to_string(help(Leaf::RecipeValidate)))
            } else {
                let mut m = String::new();
                m.append("unrecognized subcommand '");
                m.append(toks[2].as_str());
                m.append("'");
                fail_report(m, RECIPE_USAGE)
            }
        }
    } else if same_text(t.as_str(), "list") {
        run_leaf(Leaf::RecipeList, toks, 2)
    } else if same_text(t.as_str(), "validate") {
        run_leaf(Leaf::RecipeValidate, toks, 2)
    } else {
        stray(t, RECIPE_USAGE)
    }
}

/// Reads a command line (the arguments after the program name).
pub fn parse_command_line(args: &Vec<String>) -> (r: CliParse)
    ensures
        cli_view(r) == cli_spec(string_views(args@)),
{
    let ghost ts = string_views(args@);
    if args.len() == 0 {
        return CliParse::Fail(to_string(MISSING_COMMAND));
    }
    let t = &args[0];
    assert(ts[0] == t@);
    if is_help_flag(t) {
        CliParse::Help(to_string(TOP_HELP))
    } else if same_text(t.as_str(), "help") {
        if args.len() < 2 {
            CliParse::Help(to_string(TOP_HELP))
        } else {
            assert(ts[1] == args@[1]@);
            if same_text(args[1].as_str(), "recipe") {
                CliParse::Help(to_string(RECIPE_HELP))
            } else {
                match named_leaf(args[1].as_str()) {
                    Some(l) => CliParse::Help(to_string(help(l))),
                    None => {
                        let mut m = String::new();
                        m.append("unrecognized subcommand '");
                        m.append(args[1].as_str());
                        m.append("'");
                        fail_report(m, TOP_USAGE)
                    },
                }
            }
        }
    } else if same_text(t.as_str(), "recipe") {
        parse_recipe(args)
    } else {
        match named_leaf(t.as_str()) {
            Some(l) => run_leaf(l, args, 1),
            None => stray(t, TOP_USAGE),
        }
    }
}

proof fn lemma_leaf_name_reserved(t: Seq<char>)
    requires
        leaf_named(t) is Some,
    ensures
        t != "-h"@,
        t != "--help"@,
        t != "help"@,
        t != "recipe"@,
{
    reveal_strlit("-h");
    reveal_strlit("--help");
    reveal_strlit("help");
    reveal_strlit("recipe");
    reveal_strlit("run");
    reveal_strlit("once");
    reveal_strlit("login");
    reveal_strlit("list");
    reveal_strlit("snapshots");
    reveal_strlit("snapshot");
    reveal_strlit("dump");
    reveal_strlit("events");
    reveal_strlit("crawl");
    if t == "once"@ {
        assert(t[0] == 'o');
    } else if t == "list"@ {
        assert(t[0] == 'l');
    } else if t == "dump"@ {
        assert(t[0] == 'd');
    } else if t == "events"@ {
        assert(t[0] == 'e');
    } else {
        assert(t.len() != 2 && t.len() != 4 && t.len() != 6);
    }
    assert("-h"@.len() == 2 && "help"@.len() == 4 && "--help"@.len() == 6);
    assert("--help"@[0] == '-' && "recipe"@[0] == 'r' && "help"@[0] == 'h');
}

/// Every subcommand answers `--help` (or `-h`) right after its name with
/// its own help, the same text that `help` followed by its name gives.
pub proof fn lemma_subcommand_help(name: Seq<char>, flag: Seq<char>)
    requires
        leaf_named(name) is Some,
        flag == "--help"@ || flag == "-h"@,
    ensures
        cli_spec(seq![name, flag]) == CliV::Help(help_of(leaf_named(name)->0)),
        cli_spec(seq!["help"@, name]) == CliV::Help(help_of(leaf_named(name)->0)),
{
    lemma_leaf_name_reserved(name);
    reveal_strlit("recipe");
    reveal_strlit("help");
    let l = leaf_named(name)->0;
    let toks = seq![name, flag];
    let empty = ScannedV { opts: Seq::empty(), positionals: Seq::empty() };
    assert(toks[0] == name && toks[1] == flag);
    reveal_strlit("--");
    reveal_strlit("-h");
    reveal_strlit("--help");
    assert(flag != "--"@) by {
        assert("--"@.len() == 2 && "-h"@.len() == 2 && "--help"@.len() == 6);
        assert("-h"@[1] == 'h' && "--"@[1] == '-');
    }
    assert(scan_step(leaf_defs_spec(l), toks, 1, empty).1 == Err::<ScannedV, ScanV>(ScanV::Help));
    assert(scan_from(leaf_defs_spec(l), toks, 1, empty) == ScanV::Help);
    reveal_strlit("-h");
    reveal_strlit("--help");
    let h = seq!["help"@, name];
    assert(h[0] == "help"@ && h[1] == name);
    assert("help"@ != "-h"@ && "help"@ != "--help"@) by {
        assert("help"@.len() == 4 && "-h"@.len() == 2 && "--help"@.len() == 6);
    }
}

/// The name of an output format.
pub open spec fn format_name(f: OutputFormat) -> Seq<char> {
    match f {
        OutputFormat::Json => "json"@,
        OutputFormat::Jsonl => "jsonl"@,
        OutputFormat::Table => "table"@,
    }
}

/// The `--format` value picks the format of that name, letter case
/// ignored: a value read as format `f` lowercases to `f`'s name, a value
/// that lowercases to a format's name is read as that format, any other
/// value is refused; without a value the format is JSON.
pub proof fn lemma_format_is_named(vals: Seq<Seq<char>>, f: OutputFormat)
    ensures
        vals.len() == 0 ==> format_of(vals) == Ok::<OutputFormat, Seq<char>>(OutputFormat::Json),
        vals.len() > 0 && format_of(vals) == Ok::<OutputFormat, Seq<char>>(f) ==> format_name(f)
            == lowercase_of(vals[0]),
        vals.len() > 0 && lowercase_of(vals[0]) == format_name(f) ==> format_of(vals) == Ok::<
            OutputFormat,
            Seq<char>,
        >(f),
        vals.len() > 0 && (forall|g: OutputFormat| lowercase_of(vals[0]) != #[trigger] format_name(g))
            ==> format_of(vals) is Err,
{
    reveal_strlit("json");
    reveal_strlit("jsonl");
    reveal_strlit("table");
    assert("json"@.len() == 4 && "jsonl"@.len() == 5 && "table"@.len() == 5);
    assert("json"@ != "jsonl"@);
    assert("table"@[0] != "json"@[0] && "table"@[0] != "jsonl"@[0]);
    if vals.len() > 0 {
        assert(format_name(OutputFormat::Json) == "json"@);
        assert(format_name(OutputFormat::Jsonl) == "jsonl"@);
        assert(format_name(OutputFormat::Table) == "table"@);
    }
}

} // verus!
