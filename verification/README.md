# Tarantula

A search engine whose daemons share the links they index through a peer
network: scrappers ask a daemon for work, visit the page they are handed and
report its keywords and links; daemons turn submissions and reports into
commands, share them in blocks, and apply the commands of each block to
their link index.

## Layout

- `src/` — the library, verified with Verus:
  - `keywords` — keyword counts, each keyword at most once;
  - `error` — error reports (`module[line] => message`) and the failures of
    the library's procedures;
  - `link` — link keys (https flag, host, path, query) of URLs, through
    `url::Url::parse`, and the URL a stored key stands for;
  - `pubkey` — scrapper keys in hexadecimal, through the `hex` crate, with
    the round trip proved;
  - `statement` — the statements against the link index: SQL text,
    parameters, what each yields, and the schema;
  - `jobs` — step machines for each procedure on the index (select-or-insert,
    indexing a URL, checking a submission, marking a claim, finding or
    adding a link, recording a scrap result, handing out work, applying a
    command from a block), with laws about their runs, and a model of the
    index (`jobs::model`) over which indexing a URL, finding or adding a
    link, and recording a scrap result are proved idempotent;
  - `command` — the commands shared between daemons;
  - `messages` — websocket and HTTP API messages and what is done with them;
  - `scrapper` — the scrapper's URIs and reports;
  - `faq` — the FAQ page's entries.
- `app/` — the daemon and the scrapper around the library: configuration,
  SQLite through sqlx, the peer network, axum routes and templates, and the
  browser that visits pages.
- `tests/` — tests of the library, among them a run of the jobs against an
  in-memory SQLite database.
