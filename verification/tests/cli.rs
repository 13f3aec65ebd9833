//! The command-line grammar: help texts, malformed command lines, and the
//! commands that answer without a browser, against an empty store and a
//! recipe directory that holds a few recipes.

use myfeed::cli::command::{parse_command_line, CliParse, Command};
use myfeed::cli::crawl::OutputFormat;
use myfeed::cli::dump::dump_mode;
use serde_json::Value;
use myfeed::cli::recipe::{recipe_list_lines, recipe_not_found, recipe_sites};
use myfeed::cli::show::{events_output, list_output, login_url, unknown_login_site};

struct Status(bool);

impl Status {
    fn success(&self) -> bool {
        self.0
    }
}

struct Output {
    status: Status,
    stdout: Vec<u8>,
    stderr: Vec<u8>,
}

/// The files of the recipe directory the commands see.
const RECIPE_FILES: [&str; 5] = [
    "reddit-feed.yaml",
    "hackernews-feed.yaml",
    "v2ex-feed.yaml",
    "README.md",
    "zhihu-feed.yaml",
];

fn ok_lines(lines: Vec<String>) -> Output {
    let mut out = lines.join("\n");
    out.push('\n');
    Output { status: Status(true), stdout: out.into_bytes(), stderr: vec![] }
}

/// Answers a command line as far as the library decides it.
fn run_myfeed(args: &[&str]) -> Output {
    let args: Vec<String> = args.iter().map(|a| a.to_string()).collect();
    let files: Vec<String> = RECIPE_FILES.iter().map(|f| f.to_string()).collect();
    let sites = recipe_sites(&files);
    match parse_command_line(&args) {
        CliParse::Run(Command::RecipeList) => ok_lines(recipe_list_lines(&sites)),
        CliParse::Run(Command::RecipeValidate { site }) if !sites.contains(&site) => Output {
            status: Status(false),
            stdout: vec![],
            stderr: recipe_not_found(&site).into_bytes(),
        },
        CliParse::Run(Command::List { .. }) => ok_lines(list_output(&vec![])),
        CliParse::Run(Command::Events { .. }) => ok_lines(events_output(&vec![])),
        CliParse::Run(Command::Dump { compact, ids, .. }) => {
            // The dump document of an empty store; the time range is left out.
            let mut doc = serde_json::Map::new();
            doc.insert("mode".to_string(), Value::from(dump_mode(!ids.is_empty(), compact)));
            doc.insert("total_items".to_string(), Value::from(0));
            if ids.is_empty() {
                doc.insert("sites".to_string(), Value::Object(serde_json::Map::new()));
            }
            doc.insert("items".to_string(), Value::Array(vec![]));
            let text = serde_json::to_string_pretty(&Value::Object(doc)).expect("serializable");
            ok_lines(vec![text])
        }
        CliParse::Help(h) => Output { status: Status(true), stdout: h.into_bytes(), stderr: vec![] },
        CliParse::Fail(e) => Output { status: Status(false), stdout: vec![], stderr: e.into_bytes() },
        CliParse::Run(Command::Login { site }) if login_url(&site).is_none() => Output {
            status: Status(false),
            stdout: vec![],
            stderr: unknown_login_site(&site).into_bytes(),
        },
        CliParse::Run(cmd) => panic!("{cmd:?} needs a browser or a database"),
    }
}

/// Helper to run myfeed and assert it succeeds
fn run_myfeed_ok(args: &[&str]) -> String {
    let output = run_myfeed(args);
    assert!(
        output.status.success(),
        "myfeed {:?} failed:\nstdout: {}\nstderr: {}",
        args,
        String::from_utf8_lossy(&output.stdout),
        String::from_utf8_lossy(&output.stderr)
    );
    String::from_utf8_lossy(&output.stdout).to_string()
}

/// Helper to run myfeed and assert it fails
fn run_myfeed_fail(args: &[&str]) -> (String, String) {
    let output = run_myfeed(args);
    assert!(
        !output.status.success(),
        "myfeed {:?} should have failed but succeeded",
        args
    );
    (
        String::from_utf8_lossy(&output.stdout).to_string(),
        String::from_utf8_lossy(&output.stderr).to_string(),
    )
}

fn parsed(args: &[&str]) -> Command {
    let args: Vec<String> = args.iter().map(|a| a.to_string()).collect();
    match parse_command_line(&args) {
        CliParse::Run(cmd) => cmd,
        CliParse::Help(h) => panic!("unexpected help: {h}"),
        CliParse::Fail(e) => panic!("unexpected error: {e}"),
    }
}

#[test]
fn test_help_flag() {
    let output = run_myfeed_ok(&["--help"]);
    assert!(output.contains("Usage:"));
    assert!(output.contains("Commands:"));
    assert!(output.contains("run"));
    assert!(output.contains("crawl"));
    assert!(output.contains("list"));
}

#[test]
fn test_no_args_shows_help() {
    let output = run_myfeed(&[]);
    let stderr = String::from_utf8_lossy(&output.stderr);
    assert!(stderr.contains("Usage:") || stderr.contains("error:"));
}

#[test]
fn test_unknown_command() {
    let (stdout, stderr) = run_myfeed_fail(&["unknown-cmd"]);
    assert!(
        stdout.contains("unrecognized") || stderr.contains("unrecognized"),
        "should mention unrecognized command"
    );
}

#[test]
fn cli_test_crawl_requires_site() {
    let (_stdout, stderr) = run_myfeed_fail(&["crawl"]);
    assert!(
        stderr.contains("required") || stderr.contains("missing"),
        "should require site argument"
    );
}

#[test]
fn test_crawl_help() {
    let output = run_myfeed_ok(&["crawl", "--help"]);
    assert!(output.contains("Sites to crawl"));
    assert!(output.contains("--format"));
    assert!(output.contains("--compact"));
    assert!(output.contains("--save"));
    assert!(output.contains("--notify"));
}

#[test]
fn test_recipe_help() {
    let output = run_myfeed_ok(&["recipe", "--help"]);
    assert!(output.contains("Manage and validate recipes"));
    assert!(output.contains("list"));
    assert!(output.contains("validate"));
}

#[test]
fn test_list_help() {
    let output = run_myfeed_ok(&["list", "--help"]);
    assert!(output.contains("Filter by site"));
    assert!(output.contains("--limit"));
}

#[test]
fn test_dump_help() {
    let output = run_myfeed_ok(&["dump", "--help"]);
    assert!(output.contains("hours"));
    assert!(output.contains("--compact"));
    assert!(output.contains("--ids"));
}

#[test]
fn test_events_help() {
    let output = run_myfeed_ok(&["events", "--help"]);
    assert!(output.contains("events"));
    assert!(output.contains("--limit"));
}

#[test]
fn test_snapshots_requires_site() {
    let (stdout, stderr) = run_myfeed_fail(&["snapshots"]);
    assert!(
        stdout.contains("missing") || stderr.contains("missing") || stderr.contains("required"),
        "should require site argument"
    );
}

#[test]
fn test_snapshots_help() {
    let output = run_myfeed_ok(&["snapshots", "--help"]);
    assert!(output.contains("Site name"));
    assert!(output.contains("--limit"));
}

#[test]
fn test_login_help() {
    let output = run_myfeed_ok(&["login", "--help"]);
    assert!(output.contains("Site to log in"));
    assert!(output.contains("reddit"));
    assert!(output.contains("zhihu"));
    assert!(output.contains("x"));
}

#[test]
fn test_login_unknown_site() {
    let (stdout, stderr) = run_myfeed_fail(&["login", "unknown"]);
    assert!(
        stdout.contains("unknown") || stderr.contains("unknown"),
        "should report unknown site"
    );
}

#[test]
fn parses_list_with_defaults_and_options() {
    match parsed(&["list"]) {
        Command::List { site, limit } => {
            assert_eq!(site, None);
            assert_eq!(limit, 20);
        }
        other => panic!("{other:?}"),
    }
    match parsed(&["list", "-s", "reddit", "--limit=5"]) {
        Command::List { site, limit } => {
            assert_eq!(site.as_deref(), Some("reddit"));
            assert_eq!(limit, 5);
        }
        other => panic!("{other:?}"),
    }
}

#[test]
fn parses_dump_and_crawl() {
    match parsed(&["dump", "--ids", "42,55", "--ids", "78", "--site", "a", "--compact"]) {
        Command::Dump { hours, sites, compact, ids } => {
            assert_eq!(hours, 24);
            assert_eq!(sites, vec!["a"]);
            assert!(compact);
            assert_eq!(ids, vec![42, 55, 78]);
        }
        other => panic!("{other:?}"),
    }
    match parsed(&["crawl", "hackernews,reddit", "x", "--limit", "5", "--format", "TABLE", "-p", "max=10", "--save"]) {
        Command::Crawl { sites, params, limit, format, compact, save, notify } => {
            assert_eq!(sites, vec!["hackernews", "reddit", "x"]);
            assert_eq!(params, vec![("param.max".to_string(), "10".to_string())]);
            assert_eq!(limit, Some(5));
            assert_eq!(format, OutputFormat::Table);
            assert!(!compact && save && !notify);
        }
        other => panic!("{other:?}"),
    }
}

#[test]
fn reports_malformed_options() {
    let (_, e) = run_myfeed_fail(&["list", "--limit"]);
    assert!(e.contains("a value is required for '--limit <LIMIT>'"));
    let (_, e) = run_myfeed_fail(&["list", "--limit", "ten"]);
    assert!(e.contains("invalid value 'ten' for '--limit <LIMIT>'"));
    let (_, e) = run_myfeed_fail(&["events", "--bogus"]);
    assert!(e.contains("unexpected argument '--bogus' found"));
    let (_, e) = run_myfeed_fail(&["dump", "--compact", "--compact"]);
    assert!(e.contains("cannot be used multiple times"));
    let (_, e) = run_myfeed_fail(&["crawl", "hn", "--format", "xml"]);
    assert!(e.contains("unknown format: xml"));
    let (_, e) = run_myfeed_fail(&["snapshot", "abc"]);
    assert!(e.contains("invalid value 'abc' for '<ID>'"));
    let (_, e) = run_myfeed_fail(&["recipe"]);
    assert!(e.contains("requires a subcommand"));
}

#[test]
fn help_subcommand_and_recipe_commands() {
    assert!(run_myfeed_ok(&["help", "dump"]).contains("--ids"));
    assert!(run_myfeed_ok(&["recipe", "validate", "--help"]).contains("<SITE>"));
    assert!(matches!(parsed(&["recipe", "list"]), Command::RecipeList));
    match parsed(&["recipe", "validate", "hackernews"]) {
        Command::RecipeValidate { site } => assert_eq!(site, "hackernews"),
        other => panic!("{other:?}"),
    }
}

#[test]
fn test_recipe_list() {
    let output = run_myfeed_ok(&["recipe", "list"]);
    assert!(output.contains("Available recipes"));
    assert!(output.contains("hackernews"));
    assert!(output.contains("reddit"));
}

#[test]
fn test_recipe_validate_unknown_site() {
    // Should fail with recipe not found
    let (stdout, stderr) = run_myfeed_fail(&["recipe", "validate", "nonexistent"]);
    assert!(
        stdout.contains("not found") || stderr.contains("not found"),
        "should report recipe not found"
    );
}

#[test]
fn test_list_empty_db() {
    // With an empty database, should just print "no items found"
    let output = run_myfeed_ok(&["list", "--limit", "5"]);
    // Either shows items or says none found
    assert!(
        output.contains("no items found") || output.contains("["),
        "should show items or no items message"
    );
}

#[test]
fn test_events_default() {
    let output = run_myfeed_ok(&["events"]);
    // Should output events or "no events found"
    assert!(
        output.contains("no events found") || output.contains("["),
        "should show events or no events message"
    );
}

#[test]
fn recipe_list_exact_output() {
    assert_eq!(
        run_myfeed_ok(&["recipe", "list"]),
        "Available recipes (4):\n  hackernews\n  reddit\n  v2ex\n  zhihu\n"
    );
    assert_eq!(recipe_list_lines(&vec![]), vec!["Available recipes (0):".to_string()]);
}

#[test]
fn attached_short_values() {
    match parsed(&["list", "-l5", "-sreddit"]) {
        Command::List { site, limit } => {
            assert_eq!(limit, 5);
            assert_eq!(site.as_deref(), Some("reddit"));
        }
        other => panic!("{other:?}"),
    }
    match parsed(&["events", "-l=7"]) {
        Command::Events { limit } => assert_eq!(limit, 7),
        other => panic!("{other:?}"),
    }
    match parsed(&["crawl", "-pq=rust", "hn"]) {
        Command::Crawl { params, .. } => {
            assert_eq!(params, vec![("param.q".to_string(), "rust".to_string())])
        }
        other => panic!("{other:?}"),
    }
    let (_, e) = run_myfeed_fail(&["list", "-x5"]);
    assert!(e.starts_with("error: unexpected argument '-x' found\n"));
    assert!(run_myfeed_ok(&["list", "-hx"]).contains("Filter by site"));
}

#[test]
fn double_dash_ends_options() {
    match parsed(&["crawl", "--limit", "2", "--", "-odd", "--format"]) {
        Command::Crawl { sites, limit, .. } => {
            assert_eq!(sites, vec!["-odd".to_string(), "--format".to_string()]);
            assert_eq!(limit, Some(2));
        }
        other => panic!("{other:?}"),
    }
    match parsed(&["list", "--"]) {
        Command::List { site, limit } => {
            assert_eq!(site, None);
            assert_eq!(limit, 20);
        }
        other => panic!("{other:?}"),
    }
    let (_, e) = run_myfeed_fail(&["list", "--", "x"]);
    assert!(e.contains("unexpected argument 'x' found"));
}

#[test]
fn values_cannot_look_like_options() {
    let (_, e) = run_myfeed_fail(&["list", "--limit", "-5"]);
    assert_eq!(
        e,
        "error: unexpected argument '-5' found\n\nUsage: myfeed list [OPTIONS]\n\nFor more information, try '--help'.\n"
    );
    let (_, e) = run_myfeed_fail(&["list", "--limit", "--site", "x"]);
    assert_eq!(
        e,
        "error: a value is required for '--limit <LIMIT>' but none was supplied\n\nFor more information, try '--help'.\n"
    );
    let (_, e) = run_myfeed_fail(&["list", "-l", "--help"]);
    assert!(e.starts_with("error: a value is required for '--limit <LIMIT>'"));
    let (_, e) = run_myfeed_fail(&["list", "--limit", "--bogus=1"]);
    assert!(e.starts_with("error: unexpected argument '--bogus' found"));
    let (_, e) = run_myfeed_fail(&["list", "--limit"]);
    assert!(!e.contains("Usage:"));
    // A lone `-` is a value.
    let (_, e) = run_myfeed_fail(&["list", "--limit", "-"]);
    assert!(e.contains("invalid value '-' for '--limit <LIMIT>'"));
}

#[test]
fn test_dump_default_args() {
    // Should work with defaults (24 hours, no site filter)
    let output = run_myfeed_ok(&["dump"]);
    // Should output valid JSON (may have log prefix, find the JSON part)
    let has_json = output.contains("\"items\"")
        || output.contains("\"mode\"")
        || output.starts_with("{")
        || output.starts_with("[");
    assert!(
        has_json,
        "should be JSON: {}",
        &output[..output.len().min(200)]
    );
}
