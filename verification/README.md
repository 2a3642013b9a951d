# grm_adapters

Rules of the adapters around the GRM graph runtime — the command-line
session, the MCP server, the Python bindings, the derive macros and the
flight-deck HTTP gateway — written as a Verus library and proved against
their contracts: argument and option parsing, command planning, rendering,
startup decisions, request bounds and the plans the derives generate code
from.

What is not here: the runtime itself and its gRPC service client, so the
MCP tool handlers, the service-backed CLI loop, the gateway's HTTP handlers
and the Python extension module, which run requests against them, are not
part of this crate. The library takes what those calls return as plain
values (stored nodes and edges, schema lists, explain and profile plans,
batch counts) and decides what is shown; the derives yield the plan of the
impl rather than the generated tokens.

## Layout

- `src/` — the verified library.
  - `text`, `value`, `propmap`, `records`, `query`, `schema`, `error`: plain
    data (strings as character sequences, JSON values, property maps kept in
    key order, stored nodes and edges) and the operations on them.
  - `config`, `cli`: startup options of the MCP server and the CLI, the
    session usage text, colours and table rendering.
  - `session`, `service_cli`, `service_commands`, `find_output`: the
    service-backed CLI session — settings, banner, summary and schema views,
    the planner that turns a parsed command into the step to run, and the
    rendering of what a find returns.
  - `help`, `tools`, `server`, `service`: the MCP tool catalogue, parameter
    conversions, backend routing refusals and resource lookup.
  - `python`, `derive`: the Python keyword rules and the plans the
    `NodeModel` / `RelModel` derives generate code from.
  - `gateway`, `snapshot`, `deck_query`: the flight-deck gateway — request
    bounds, the read-only query guard, CORS origins, snapshots and query
    results, and the schema view.
  - `laws`: properties that span several operations.
- `tests/` — tests run against the compiled library.
- `app/` — what the library leaves to ordinary Rust: the process
  environment, `serde_json` documents (help pages, result bodies), and the
  HTTP layer (`axum`, `tower-http`).
