# myfeed

A personal feed bot: YAML recipes run in a Chrome tab extract posts from
sites without RSS; new items are deduplicated in SQLite and sent to
Telegram (or printed), and an Atom feed can be written.

The decisions of the bot are a library verified with Verus (`src/`):

- `config` — reading the settings, the keyword filter, dedup windows;
- `crawler`, `json` — turning a recipe's output into typed feed items;
- `db` — whether a stored item is new under its dedup window, runs of
  empty crawls;
- `scheduler` — the crawl cycle as a state machine (cleanup, crawl with
  retries, feed, sleep), what a crawl notifies, digests, stale-recipe
  warnings;
- `telegram`, `notifier`, `feed` — message texts, the rate-limited
  consumer as a state machine, the Atom document;
- `cli` — the command-line grammar and what each command prints;
- `text`, `scan`, `decimal`, `output` — the character-level helpers these
  rest on.

`app/` is the program around it: environment, SQLite (diesel), Chrome
(pwright), HTTP (reqwest) and the async runtime (tokio).
