# stalwart-mcp

An MCP server for the Stalwart mail server, giving chat assistants access to
mail over JMAP.  The library holds the server's checks, queries, message
mapping, rate limiting and debouncing, written in Verus and proved against
their specifications; the network, the clock-driven loops, the lookups of
the mail account and the protocol plumbing around them are ordinary Rust.

## Layout

- `src/` — the verified library (crate `stalwart_mcp`):
  - `rate_limit` — per-tool token buckets, with exact integer refill.  Each
    call is stamped with its clock reading and charged the time since the
    previous stamp; over any run of calls charged this way at nondecreasing
    readings, the laws bound the calls allowed by the bucket plus the
    elapsed time, and give exactly the first N of calls made within one
    token's refill;
  - `auth` — token claims and scopes, secret generation, the rule deciding
    which HTTP requests need a bearer token;
  - `config` — configuration types, defaults and password lookup;
  - `jmap` — the registry of connected accounts, the event-stream URL, the
    mapping of fetched messages and the planning of message queries;
  - `mcp` — argument checks, the order in which each tool makes them
    together with its rate limit, answers and prompt texts of the MCP tools;
  - `notifications` — the debouncer turning change events into
    notifications, with its laws over whole event sequences (one
    notification per burst, none without a mail change since the last);
  - `admin` — spam-training endpoints and batch tallies;
  - `text` — string operations with exact specifications.
- `tests/` — tests of the library on concrete values.
- `app/` — the program: command line, configuration loading, the JMAP and
  HTTP clients, the MCP transports and the event loops.
