# shimmy

Shimmy sits between an MCP client and an MCP server, relays every request,
response and notification, and reports each one to an inspector that keeps
them per connection and shows them as a timeline.

The library under `src/` is verified with Verus:

- `colorize`: HTML escaping and line-by-line JSON highlighting;
- `common_structs`: the packets exchanged with the inspector;
- `store`, `logs`, `inspector`: the inspector's per-connection stores, the
  time-ordered timeline, and the answers to its routes and UI commands;
- `middleman`: what the relay reports, where, and when;
- `cli`, `conversions`: argument parsing and JSON-RPC error mapping;
- `clock`, `text`: time stamps, identifiers and small text helpers.

`app/` holds the program around it: the command line, the MCP relay, the
HTTP routes and the desktop shell.
