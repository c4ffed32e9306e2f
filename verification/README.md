# copilot-money-cli

A command-line client for the Copilot Money personal-finance service, with an
MCP (Model Context Protocol) server mode. The decisions the client makes are
written in Verus and proved against their contracts; talking to the network,
the terminal and the file system is ordinary Rust around them.

## Layout

- `src/` — the verified library.
  - `text`, `select`, `decimal`: characters, trimming, splitting, integer
    parsing and zero-padded formatting, each with a spec of its own.
  - `calendar`, `dates`: civil-date arithmetic, the accepted date formats,
    and relative date keywords (`today`, `last-week`, `30d`, ...).
  - `json`: the JSON values the service and the MCP protocol exchange.
  - `client`, `categories`, `transactions`, `edits`: the service's data,
    name and id lookups, transaction filters, duplicate detection, and the
    inputs of edit requests.
  - `paging`, `session`: paging through results, and the retry and token
    refresh decisions around one request.
  - `cli`, `mcp`, `replies`: output cells, presets, confirmation, request
    routing, tool arguments and tool replies.
  - `laws`: properties that span several functions, as proof functions.
- `tests/` — tests on concrete values.
- `app/` — `main`, argument parsing, HTTP, terminal output and the MCP stdio
  loop, calling into the library for every decision.
