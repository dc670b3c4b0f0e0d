//! The resources that the server offers: documents, and what it can tell of a
//! schema.

use vstd::prelude::*;
use vstd::string::*;

use crate::dump;
use crate::error;
use crate::json;
use crate::json::JsonModel;
use crate::json::{JsonObject, JsonValue};
use crate::pairs;
use crate::members;
use crate::schema;
use crate::schema::FieldModel;
use crate::schema::SchemaModel;
use crate::schema::{FieldDef, FieldType, SchemaConfig};
use crate::text;

verus! {

broadcast use vstd::map::group_map_axioms;

/// The README: what the server is, how it is set up, and its tools.
pub const README_BASICS: &'static str = r#"# mini-app-mcp

Agent-First CRUD store MCP server — `schema.yaml` driven, SQLite backend, multi-table in a single daemon.

## What it does

`mini-app-mcp` is a lightweight MCP server that manages one or more SQLite tables in a single running process. The shape of each table is defined entirely by a `schema.yaml` file; no migrations, no REST API, no GUI. CRUD is exposed exclusively as MCP tools, making it a natural backend for agents that need structured persistent storage.

## Design principles

- **`schema.yaml` as sole schema authority** — field names, types, and required constraints are read from YAML at startup. No field is hard-coded in application code.
- **Multi-table in one daemon** — a single server process discovers and mounts all tables found under the configured User and Project scope directories. A dedicated legacy mode (`MINI_APP_SCHEMA` + `MINI_APP_DB`) preserves the original single-table behaviour.
- **MCP-only entry point** — there is no HTTP/REST/CLI CRUD interface. All reads and writes go through MCP tools.
- **Structured JSON errors** — every error response carries a machine-readable `code` field so agents can handle failures programmatically.

## schema.yaml format

```yaml
table: issues
title: "Issue tracker"
description: "Tracks bugs and feature requests for a project."
fields:
  - name: title
    type: string
    required: true
    description: "Short one-line summary of the issue."
  - name: state
    type: string
    required: false
  - name: tags
    type: array
    required: false
```

The optional `title` and `description` keys at the table level provide human- and AI-readable metadata about the table. Each field entry may also carry an optional `description` string. All three keys follow the OpenAPI 3.1 / JSON Schema 2020-12 naming convention and are included in `info` tool output and the `schema://json` resource.

Supported types: `string`, `number`, `boolean`, `array`, `object`.

## Configuration

### Multi-table mode (recommended)

| Environment variable | Default | Description |
|---|---|---|
| `MINI_APP_USER_DIR` | `~/.mini-app/` | Base directory for User-scope tables. Each subdirectory is treated as a table name and must contain `schema.yaml` and `<table>.db`. |
| `MINI_APP_PROJECT_DIR` | `./.mini-app/` | Project-scope override directory. A table present here fully replaces the User-scope definition of the same name. |
| `MINI_APP_BACKUP_RETENTION` | `10` | Maximum number of backup copies (YAML + DB snapshot pairs) to retain per table under `_backup/`. Older copies beyond this limit are deleted immediately after each backup write. |
| `MINI_APP_SNAPSHOT_RETENTION` | `10` | Maximum number of snapshot generations to retain per table under `_snapshots/`. Strictly separate from `MINI_APP_BACKUP_RETENTION`; purges only `_snapshots/` files and never touches `_backup/`. |

Tables are discovered at startup by scanning both directories. Project-scope definitions take precedence over User-scope definitions for the same table name.

### Legacy single-table mode

| Environment variable | Default | Description |
|---|---|---|
| `MINI_APP_SCHEMA` | `./schema.yaml` | Path to the schema definition file |
| `MINI_APP_DB` | *(none — must be set)* | Path to the SQLite database file |

When `MINI_APP_SCHEMA` and `MINI_APP_DB` are set the server starts in legacy mode, mounting exactly one table. The `table` argument on all tools may be omitted in this mode.

All variables can also be placed in a `.mini-app-mcp.env` file in the working directory.

## MCP tools

All tools accept an optional `table` argument that selects the target table. In multi-table mode the argument is required; omitting it returns error code `TABLE_REQUIRED`. Supplying an unknown table name returns error code `TABLE_NOT_FOUND`. In legacy single-table mode the argument may be omitted.

| Tool | Description |
|---|---|
| `info` | Returns the parsed schema (table name, field definitions) as JSON |
| `create` | Inserts a new row; validates the `data` object against the schema |
| `get` | Retrieves a single row by `id`. If `id` is shorter than 36 characters it is treated as a UUID prefix: zero matches return `NOT_FOUND`; two or more matches return `AMBIGUOUS_ID` with a candidate list. A full 36-character UUID always uses the exact-match path. Accepts an optional `fields` selector to project the returned `data` object to a named subset of schema fields. |
| `list` | Returns rows with optional `limit` / `offset` pagination. Accepts an optional `fields` selector to project the returned `data` objects to a named subset of schema fields. |
| `update` | Updates an existing row by `id`. If `id` is shorter than 36 characters it is treated as a UUID prefix (see `get` for resolution rules). Default mode is **merge** (RFC 7396): absent fields are preserved from the stored row, `null` values delete optional fields or raise a Validation error for required ones. Pass `"mode": "replace"` for full replacement (pre-0.9 behaviour). |
| `delete` | Removes a row by `id`. If `id` is shorter than 36 characters it is treated as a UUID prefix (see `get` for resolution rules). |
| `reload` | Re-scan `MINI_APP_USER_DIR` / `MINI_APP_PROJECT_DIR` and atomically replace the table registry. Legacy `MINI_APP_SCHEMA` + `MINI_APP_DB` are re-applied if set. Returns `{ mounted, added, removed }`. Limitations: no file watcher (explicit invocation only); whole-registry replace (no per-table partial reload); no schema migration for existing rows; concurrent `reload` calls are last-write-wins. |
| `schema_create` | Create a new `schema.yaml` under the specified `scope` (`project` or `user`) and register the table live. Pass `dry_run: true` to preview without writing. Fails with `SCHEMA_EXISTS` if the table already exists. |
| `schema_update` | Replace an existing table's `schema.yaml` with a new definition (full overwrite). Backs up the previous YAML and a SQLite snapshot to `_backup/` before writing. Pass `dry_run: true` to preview field changes without touching disk. |
| `schema_delete` | Remove a table's `schema.yaml` (moved to `_backup/`) and unregister it from the live registry. **Does not alter or drop the SQLite table** — DDL changes remain the operator's responsibility. Pass `dry_run: true` to preview. |
| `schema_batch` | Execute an array of `ops[]` atomically under a single SQLite SAVEPOINT. Any op failure rolls back all preceding ops, leaving YAML and DB untouched. All ops must target the same table. Returns per-op results or a `BATCH_ABORTED` error with the index of the failing op. |
| `data_snapshot` | Create a point-in-time SQLite snapshot of one or all mounted tables using the SQLite hot backup API. Snapshots are written to `<scope_root>/_snapshots/<table>.<unix_secs>.db`. Pass `table` and/or `scope` to limit the target set; omit both to snapshot all mounted tables. Pass `dry_run: true` to preview the operation (target tables, row counts, would-purge count) without creating any files. Retention is controlled by `MINI_APP_SNAPSHOT_RETENTION` (default 10), independent of `MINI_APP_BACKUP_RETENTION`. |
| `row_materialize` | Write one or more rows to arbitrary absolute paths on the local filesystem. Select rows by `id` or by a `ListFilter` expression. Choose output format (`raw`, `markdown`, `json`, `yaml`), field projection (`All` or a named subset), and whether to write one file per row (`concat=false`, default) or concatenate all rows into a single file (`concat=true`). Returns `{ count, files: [{path, bytes, sha256, row_id}] }` — every file entry includes a SHA-256 hex digest of the written bytes. Pass `dry_run: true` to compute results without writing. |
| `alias_create` | Register a named query alias for a table. Accepts `name`, either `filter` (a `ListFilter` expression) or `filter_template` (a MiniJinja template string — mutually exclusive with `filter`), optional `params_schema` (array of parameter name strings for a templated alias), optional `default_limit`, and optional `description`. Alias names are unique per table; duplicate names return `ALIAS_ALREADY_EXISTS`. Aliases are scoped per table and stored in the table's own SQLite database. |
| `alias_list` | Return all aliases registered for a table as a JSON array of `{ name, filter, default_limit, description, params_schema }` objects. |
| `alias_run` | Execute a stored alias by name. Accepts optional runtime `limit` and `offset` that override the stored `default_limit` at call time. For parameterized aliases (those created with `filter_template`), also accepts a `params` object whose key-value pairs are injected into the template. Accepts an optional `fields` selector to project the returned `data` objects to a named subset of schema fields. If `params_schema` is set and `params` is omitted, returns `ALIAS_PARAMS_REQUIRED`. Template render failures return `ALIAS_TEMPLATE_ERROR`. Returns the same shape as the `list` tool. Returns `ALIAS_NOT_FOUND` for an unknown name. |
| `alias_delete` | Delete a named alias for a table. Returns `ALIAS_NOT_FOUND` if the alias does not exist. |

"#;

/// The README: resources, files, and schemas.
pub const README_FILES: &'static str = r#"## MCP resources

In addition to the 17 tools above, the server exposes 7 read-only **Resources** addressable by URI. Resources are intended for agents that want to fetch the schema definition or reference documentation without invoking a mutating tool.

| URI | MIME | Content |
|---|---|---|
| `schema://yaml` | `application/yaml` | Raw `schema.yaml` file content (read from disk on each request) |
| `schema://json` | `application/json` | Parsed `SchemaConfig` as JSON (same shape the `info` tool returns) |
| `schema://json-schema` | `application/schema+json` | JSON Schema (draft-07) derived from the schema's fields. Use this to validate `data` arguments before calling `create` / `update` |
| `docs://quickstart` | `text/markdown` | Agent quickstart (mode detection + first-call recipe + pointers to the other `docs://` resources), compiled into the binary. Distinct from this human-facing README — read this resource from inside the MCP session |
| `docs://tools` | `text/markdown` | Cheat sheet of all 17 MCP tools and their input shapes |
| `docs://errors` | `text/markdown` | Reference table of error codes returned by the server |
| `docs://filters` | `text/markdown` | Guide for constructing filter objects (Eq/In/Like/Or/And) used by `list`, `alias_create`, and `row_materialize` |

The `info` tool and `schema://json` resource return equivalent content but serve different purposes: `info` is a callable tool (good for one-off introspection in a conversation), while resources are URI-addressable and can be subscribed to or cached by the client.

## Usage

Start the server via the `--mcp` flag (required; the binary has no other entry point).

### Multi-table mode

Place each table's `schema.yaml` and `<table>.db` under `~/.mini-app/<table>/` (User scope) or `./.mini-app/<table>/` (Project scope), then start without any extra environment variables:

```sh
mini-app-mcp --mcp
```

Register it once in `.mcp.json` to serve all mounted tables:

```json
{
  "mcpServers": {
    "mini-app": {
      "command": "mini-app-mcp",
      "args": ["--mcp"]
    }
  }
}
```

### Legacy single-table mode

```sh
MINI_APP_SCHEMA=./schema.yaml MINI_APP_DB=./issues.db mini-app-mcp --mcp
```

Or configure via `.mini-app-mcp.env`:

```
MINI_APP_SCHEMA=./schema.yaml
MINI_APP_DB=./issues.db
```

## Dump / file materialization

`mini-app-mcp` can write each created or updated row to disk as a Markdown file.  This is useful for agents that read context from files, for version-controlling records with `git`, or for quick human inspection.

### How it works

After every successful `create` or `update` call the server writes (or overwrites) a file:

```
<dump-dir>/<id>.md
```

The file format is:

```markdown
# <title-field value>

<body-field value>
```

`delete` does **not** remove the dump file by default (the record stays on disk as an archive).

### Enabling dump in schema.yaml

Add a `dump:` section to your `schema.yaml`:

```yaml
table: issues
fields:
  - name: title
    type: string
    required: true
  - name: body
    type: string
    required: false
dump:
  dir: ./issues          # optional; default: <cwd>/.mini-app/<table>/
  title_field: title     # optional; default: title
  body_field: body       # optional; default: body
  sync: write-only       # optional; default: write-only
```

| Key | Default | Description |
|---|---|---|
| `dump.dir` | `<cwd>/.mini-app/<table>/` | Directory where `<id>.md` files are written. Relative paths are resolved from the server's working directory. |
| `dump.title_field` | `title` | Field name in the stored JSON row to use as the Markdown heading. |
| `dump.body_field` | `body` | Field name in the stored JSON row to use as the Markdown body. |
| `dump.sync` | `write-only` | Sync direction. Only `write-only` is implemented. Setting `bidirectional` is accepted without error but logs a warning and behaves as `write-only`. |

## Schema management

`mini-app-mcp` exposes four tools for managing table schemas at runtime without restarting the server.

### Creating a table

```
schema_create(scope="project", table="notes", title="Notes", description="Personal notes.", fields=[...])
```

The tool writes `<scope_dir>/notes/schema.yaml` and immediately registers the new table in the live registry. Calling it again for the same table name returns `SCHEMA_EXISTS`. The optional `title` and `description` arguments are written to the YAML file and are immediately visible via `info` or `schema://json`. Individual field entries may also include a `description` string.

### Updating a schema

```
schema_update(scope="project", table="notes", title="Notes", description="Updated notes.", fields=[...])
```

Before overwriting, the server backs up the existing `schema.yaml` and a point-in-time SQLite snapshot to `<scope_dir>/_backup/notes.<timestamp>.yaml` and `<scope_dir>/_backup/notes.<timestamp>.db`. The live registry is refreshed after the write. No DDL migration is applied — the underlying table structure is unchanged.

### Deleting a schema

```
schema_delete(scope="project", table="notes")
```

The `schema.yaml` is moved to `_backup/` and the table is unregistered from the live registry. **The SQLite database file is not modified.** Dropping or altering the table remains the operator's responsibility.

### Atomic batch operations

```
schema_batch(ops=[
  { "op": "create", "table": "notes", "scope": "project", "fields": [...] },
  { "op": "data_insert", "table": "notes", "data": { "title": "first note" } }
])
```

All ops execute under a single SQLite SAVEPOINT. If any op fails the entire batch rolls back — YAML files are not written and the registry is not changed. All ops in one batch must target the same table.

### dry_run preview

All four schema tools accept `dry_run: true`. In dry-run mode the tool computes and returns affect counts (`rows`, `fields_added`, `fields_removed`) without writing to any YAML file, SQLite table, or backup directory.

### Backup retention

Backup files accumulate in `<scope_dir>/_backup/`. The server automatically deletes the oldest copies beyond the retention limit (default 10 pairs per table). Override the limit with `MINI_APP_BACKUP_RETENTION`.

### Data snapshots

`data_snapshot` creates a standalone SQLite snapshot of one or more mounted tables without touching any YAML file or altering the schema:

```
data_snapshot(table="notes", scope="project")
data_snapshot()                       # snapshot all mounted tables
data_snapshot(dry_run=true)           # preview without writing
```

Snapshots are written to `<scope_root>/_snapshots/<table>.<unix_secs>.db` using the SQLite hot backup API (`rusqlite::Connection::backup`), so the source database remains open and writable during the operation. The retention limit (default 10) is controlled independently via `MINI_APP_SNAPSHOT_RETENTION` and never interacts with `_backup/`.

## Row materialization

`row_materialize` exports rows from any mounted table to the local filesystem in a format your agent or toolchain can consume directly — without re-reading the database.

### Selecting rows

```
row_materialize(table="notes", selector={"type": "ById", "id": "<uuid>"}, ...)
row_materialize(table="notes", selector={"type": "ByFilter", "filter": {"type": "eq", "field": "state", "value": "done"}}, ...)
```

`ById` fetches exactly one row by primary key. `ByFilter` accepts any `ListFilter` expression (the same `eq` / `in` / `like` / `or` / `and` combinators available in `list`).

### Output formats

| `format` | Extension | Description |
|---|---|---|
| `raw` | `.txt` | Field values joined by newlines in schema order (or specified order when projecting) |
| `markdown` | `.md` | Each field rendered as a Markdown heading + value block |
| `json` | `.json` | `serde_json::to_string_pretty` — single object per row, or JSON array when `concat=true` |
| `yaml` | `.yaml` | YAML document stream — one document per row, separated by `---` |

### Destination and concat mode

```
# One file per row, written to /tmp/export/{id}.md
row_materialize(table="notes", format="markdown", dest="/tmp/export", concat=false)

# All rows concatenated into a single file
row_materialize(table="notes", format="json", dest="/tmp/notes.json", concat=true)
```

When `concat=false` (default), `dest` is treated as a directory and each row is written to `{dest}/{id}.{ext}`. The directory is created with `create_dir_all` if it does not exist.

When `concat=true`, `dest` is a file path. Raw rows are separated by `\n\n`, Markdown rows by `---\n`, and YAML rows by `---\n`. JSON uses a top-level array.

**The destination path must be absolute.** Relative paths are rejected immediately with `MATERIALIZE_DEST_RELATIVE`. No project-root sandbox is applied — any absolute path is permitted, giving agents full filesystem reach.

### Field projection

```
row_materialize(..., fields={"type": "All"})                              # default: all schema fields
row_materialize(..., fields={"type": "List", "fields": ["title", "state"]})  # named subset
```

Unknown field names return `MATERIALIZE_FIELD_UNKNOWN` before any file is written.

### Integrity: SHA-256 in every response

Every entry in `files[]` includes a `sha256` field — a 64-character hex digest of the exact bytes written. Agents can use this for idempotency checks or to verify content after transfer without re-reading the file.

```json
{
  "count": 2,
  "files": [
    { "path": "/tmp/export/abc.md", "bytes": 142, "sha256": "e3b0c44…", "row_id": "abc" },
    { "path": "/tmp/export/def.md", "bytes": 198, "sha256": "a87ff6…", "row_id": "def" }
  ]
}
```

`row_id` is the source row's primary key for per-row files and `null` for concatenated output.

### Dry run

```
row_materialize(..., dry_run=true)
```

Dry-run mode runs all validation, projection, serialization, and SHA-256 computation but skips `std::fs::write`. The response shape is identical to a real write — path, byte count, and digest are all populated as "would-be" values.

### Write mode

```
row_materialize(..., write_mode="Overwrite")   # default: overwrite existing files
row_materialize(..., write_mode="Error")       # fail with MATERIALIZE_DEST_INVALID if dest exists
```

### Ignoring dump files in git

Add `.mini-app/` (or your custom `dump.dir`) to `.gitignore` if you do not want dump files tracked by version control:

```
.mini-app/
```

"#;

/// The README: relations between rows, updates, and what is shown of a row.
pub const README_ROWS: &'static str = r#"## Relation graph usage

`mini-app-mcp` is table-agnostic, but a common pattern is to use a single table as a **relation graph layer** for agents that need typed edges between nodes (e.g. persona-AI memory: `sister_of`, `member_of_studio`, `mother_of`).

The reference schema lives at `examples/schemas/relations.schema.yaml`:

| Field | Type | Required | Notes |
|---|---|---|---|
| `from` | string | yes | Source node id |
| `to` | string | yes | Target node id |
| `type` | string | yes | Edge label (`sister_of`, `member_of_studio`, ...) |
| `ts` | number | yes | Unix seconds when asserted |
| `strength` | number | no | Edge weight in `[0.0, 1.0]`, defaults to `1.0` |
| `metadata` | object | no | Free-form attributes |
| `source_entry_id` | string | no | Foreign reference to a journal / log entry |

### Bulk insert (N edges atomically)

Use `schema_batch` with `query` ops to register N edges in one SAVEPOINT:

```json
{
  "ops": [
    {
      "op": "query",
      "sql": "INSERT INTO rows (id, data, created_at, updated_at) VALUES (?1, ?2, ?3, ?4)",
      "params": ["<uuid>", "{\"from\":\"persona-x\",\"to\":\"a\",\"type\":\"sister_of\",\"ts\":1779330000,\"strength\":1.0}", "1779330000", "1779330000"]
    }
  ]
}
```

Any op failure rolls back the entire batch.

### Bulk replace (edge set full replacement)

Use the dedicated `replace` op to swap an edge set in one atomic SAVEPOINT. The server handles UUID generation, timestamps, and JSON serialization; the caller supplies the `match` scope and `items` list only.

```json
{
  "ops": [
    {
      "op": "replace",
      "table": "relations",
      "match": {"from": "persona-x", "type": "sister_of"},
      "items": [
        {"from": "persona-x", "to": "a", "type": "sister_of", "ts": 1779330000, "strength": 1.0},
        {"from": "persona-x", "to": "b", "type": "sister_of", "ts": 1779330000, "strength": 1.0},
        {"from": "persona-x", "to": "c", "type": "sister_of", "ts": 1779330000, "strength": 0.8}
      ]
    }
  ]
}
```

The `replace` op runs DELETE WHERE (match) + N INSERTs inside a single SAVEPOINT. Both phases roll back together on any failure. The response includes per-op affects:

```json
{
  "committed": true,
  "ops_executed": 1,
  "affects": {"deleted": 5, "inserted": 3}
}
```

**Semantics**:

- Each key in `match` becomes a separate `json_extract(data, '$.key') = value` predicate joined by AND. Match value must be a scalar (string/number/bool/null).
- **Empty `match` (`{}`) is rejected with VALIDATION_ERROR** to prevent accidental full-table wipes.
- Each item in `items` is validated against the table's schema before any SQL runs.
- The `query` op (raw SQL escape hatch shown in [Bulk insert](#bulk-insert-n-edges-atomically)) remains available for cases the `replace` op does not cover.

### Listing edges (sub-1000 scope)

The `list` tool returns rows in `created_at DESC` order with `limit` capped at 1000. An optional `filter` argument enables server-side row filtering over schema-validated fields.

#### Filter variants

| type | description |
|---|---|
| `eq` | Equality match: `{"type": "eq", "field": "...", "value": ...}` |
| `in` | Set membership: `{"type": "in", "field": "...", "values": [...]}` |
| `like` | Partial-match on string fields: `{"type": "like", "field": "...", "pattern": "..."}`. `%` matches any substring; `_` matches any single character. Restricted to `string`-typed fields. |
| `or` | OR composition: `{"type": "or", "filters": [...]}` |
| `and` | AND composition: `{"type": "and", "filters": [...]}` |

`or` and `and` accept `Vec<ListFilter>` recursively, enabling nested compositions to arbitrary depth.

**Constraints**: field names must be registered in the table's `schema.yaml` (unknown fields return a `VALIDATION_ERROR`). Values are type-checked against the schema field's declared type — the same typed scalar validation applied to `BatchOp::Replace` match values. Omitting `filter` returns all rows within `limit`/`offset` (full backward compatibility).

#### Mailbox-style OR filter example

Fetch messages addressed to "alice" or "broadcast" in a single call:

```json
{
  "filter": {
    "type": "or",
    "filters": [
      {"type": "eq", "field": "to", "value": "alice"},
      {"type": "eq", "field": "to", "value": "broadcast"}
    ]
  }
}
```

For small graphs where client-side filtering is sufficient:

```python
edges = mini_app.list(table="relations", limit=1000)
sisters_of_x = [
    e for e in edges
    if e["data"]["from"] == "persona-x" and e["data"]["type"] == "sister_of"
]
```

## Update semantics: merge vs replace

The `update` tool supports two modes controlled by the optional `"mode"` field.

### Merge mode (default)

```json
update(table="notes", id="<uuid>", data={"state": "done"})
// or equivalently:
update(table="notes", id="<uuid>", data={"state": "done"}, mode="merge")
```

Merge mode follows [RFC 7396 (JSON Merge Patch)](https://datatracker.ietf.org/doc/html/rfc7396) shallow semantics:

- **Absent fields are preserved** — keys not present in `data` keep their stored values.
- **Non-null values overwrite** — a key present in `data` with a non-null value replaces the stored value for that key. Nested objects are replaced wholesale (no deep merge).
- **`null` deletes an optional field** — if a key's value is `null` and the field is `required: false` in the schema, the field is removed from the stored row.
- **`null` on a required field is a Validation error** — if a key's value is `null` and the field is `required: true`, the call fails with `VALIDATION_ERROR` before any write occurs.
- **Full schema validation runs on the merged result** — after merging, the complete merged object is validated against the schema. Any constraint violation (missing required field, type mismatch) returns a Validation error and the row is not updated.

### Replace mode

```json
update(table="notes", id="<uuid>", data={...}, mode="replace")
```

Replace mode performs a full replacement: `data` is validated against the schema and then written as-is, completely overwriting the stored row. This is identical to the behaviour of `update` before version 0.9. Callers that relied on the old default and send partial `data` objects should switch to `mode="replace"` to restore the original behaviour.

### Choosing a mode

| Mode | When to use |
|---|---|
| `merge` (default) | Partial updates — only send the fields you want to change. Existing fields you omit are untouched. |
| `replace` | Full rewrites — you supply the complete intended state of the row. Omitted fields are deleted. |

## Field projection

`list`, `get`, and `alias_run` all accept an optional `fields` argument that limits which schema fields appear in the returned `data` object. `id`, `created_at`, and `updated_at` are always included in the response envelope regardless of the selector.

### Selector shapes

```json
{"mode": "all"}                              // default: return all schema fields
{"mode": "list", "fields": ["title", "state"]}   // return only the named fields
```

Omitting `fields` is fully backward-compatible — existing callers receive complete rows without any change.

### Usage examples

```
list(table="issues", fields={"mode": "list", "fields": ["title", "state"]})
get(table="issues", id="<uuid>", fields={"mode": "list", "fields": ["title"]})
alias_run(table="issues", name="recent_open", fields={"mode": "list", "fields": ["title", "state"]})
```

### Validation

Unknown field names are rejected with `VALIDATION_ERROR` before any query executes. Field name validation consults `schema.yaml`'s canonical field definitions — not the actual keys present in stored rows — so projection errors are caught reliably even when the field is simply absent from a particular row.

## Query aliases

Query aliases let you save a `ListFilter` expression (or a MiniJinja filter template) under a short name and replay it — with optional per-call `limit` / `offset` overrides — without repeating the filter JSON every time.

### Creating a static alias

```
alias_create(
  table="notes",
  name="recent_open",
  filter={"type": "eq", "field": "state", "value": "open"},
  default_limit=20,
  description="Open notes, newest first"
)
```

The alias is stored in the table's own SQLite database under `_aliases`. Alias names are unique per table; calling `alias_create` again with the same name returns `ALIAS_ALREADY_EXISTS`.

### Creating a parameterized alias (filter template)

Parameterized aliases use a [MiniJinja](https://docs.rs/minijinja/) template string instead of a fixed filter. At run time the caller supplies parameter values that are rendered into the template before execution.

```
alias_create(
  table="issues",
  name="by_state",
  filter_template='{"type": "eq", "field": "state", "value": "{{ state }}"}',
  params_schema=["state"],
  default_limit=50,
  description="Filter issues by state (parameterized)"
)
```

`filter_template` and `filter` are mutually exclusive — exactly one must be supplied. `params_schema` is an optional array of parameter names; supply it to document which keys `alias_run` expects in its `params` object.

### Running an alias

**Static alias** (no parameters):

```
alias_run(table="notes", name="recent_open")
# → uses stored default_limit=20

alias_run(table="notes", name="recent_open", limit=5)
# → runtime limit overrides the stored default_limit

alias_run(table="notes", name="recent_open", limit=10, offset=20)
# → pagination with runtime overrides
```

**Parameterized alias** (with `params`):

```
alias_run(table="issues", name="by_state", params={"state": "open"})
# → renders template → {"type": "eq", "field": "state", "value": "open"}
# → validates as ListFilter → executes Store::list

alias_run(table="issues", name="by_state", params={"state": "open"}, limit=10)
# → runtime limit override with params injection
```

`alias_run` resolves the stored filter or renders the template and passes the result to `Store::list`. If `limit` is supplied at call time it overrides `default_limit`; if omitted, `default_limit` from the alias is used. `offset` is always a runtime-only argument (not stored).

**Error cases for parameterized aliases**:

| Situation | Error code |
|---|---|
| `params_schema` is set but `params` is omitted | `ALIAS_PARAMS_REQUIRED` |
| MiniJinja render fails (bad syntax or missing variable) | `ALIAS_TEMPLATE_ERROR` |
| Rendered output is not valid JSON or not a valid `ListFilter` | `VALIDATION_ERROR` |

### Listing and deleting aliases

```
alias_list(table="notes")
# → [{"name": "recent_open", "filter": {...}, "default_limit": 20, "description": "...", "params_schema": null}]

alias_list(table="issues")
# → [{"name": "by_state", "filter": null, "default_limit": 50, "description": "...", "params_schema": ["state"]}]

alias_delete(table="notes", name="recent_open")
```

### Alias isolation

Each table's `_aliases` storage is physically separate: aliases for `notes` live in `notes.db`, aliases for `issues` live in `issues.db`. There is no global alias namespace and no way for an alias operation to read or write aliases belonging to a different table.

"#;

/// The README: aggregation, shared queries, storage, and the license.
pub const README_QUERIES: &'static str = r#"## Aggregation

`query_aggregate` runs `COUNT` / `SUM` / `AVG` / `MIN` / `MAX` / `GROUP BY` over one or many tables in a single tool call. Multi-table sources are joined with literal `UNION ALL` via SQLite `ATTACH DATABASE`, eliminating the N+1 round trips that result when callers fetch per-table rows and reduce client-side. The tool is read-only and idempotent.

### Shape

```jsonc
{
  "sources":   { "kind": "single", "value": "<table>" },          // or "multi" + ["t1","t2",...]
  "filter":    null,                                              // optional, same ListFilter shape as `list`
  "aggregator": { "kind": "count" }                               // or sum / avg / min / max / group_by
}
```

Result is externally-tagged so callers can dispatch on `kind`:

```jsonc
{ "kind": "count",  "value": 42 }
{ "kind": "value",  "value": 3.14 }
{ "kind": "groups", "value": [ { "key": "a", "count": 12, "value": 7.0 }, ... ] }
```

### Single-source aggregation

```jsonc
// COUNT all rows in `emo`.
{ "name": "query_aggregate", "arguments": {
    "sources":    { "kind": "single", "value": "emo" },
    "aggregator": { "kind": "count" }
}}

// SUM the `amount` field.
{ "name": "query_aggregate", "arguments": {
    "sources":    { "kind": "single", "value": "ledger" },
    "aggregator": { "kind": "sum", "field": "amount" }
}}
```

### Multi-table aggregation

`Multi` mounts every backing `.db` file via SQLite `ATTACH DATABASE` (limit 10) and composes a `UNION ALL` between per-table sub-queries before applying the outer aggregate.

```jsonc
// COUNT rows across two same-shape tables.
{ "name": "query_aggregate", "arguments": {
    "sources":    { "kind": "multi", "value": ["events_a", "events_b"] },
    "aggregator": { "kind": "count" }
}}

// GROUP BY tag with HAVING and an inner SUM(amount).
{ "name": "query_aggregate", "arguments": {
    "sources":    { "kind": "multi", "value": ["events_a", "events_b"] },
    "aggregator": {
        "kind":     "group_by",
        "by_field": "tag",
        "having":   { "type": "eq", "field": "tag", "value": "a" },
        "inner":    { "kind": "sum", "field": "amount" }
    }
}}
```

Caller is responsible for ensuring all `Multi` sources share a compatible schema; per-table field validation is a Phase 2 carry. Aggregator-specific errors (empty sources, ATTACH-limit exceeded, nested `GroupBy`, non-UTF-8 db path) return `AGGREGATOR_ERROR` (`data.code`); unknown table names return `TABLE_NOT_FOUND`; field / identifier rejections return `VALIDATION_ERROR`.

## Global Alias (Phase 2)

Phase 2 unifies aliases across tables in a single global storage
(`<project_dir>/_global.db` + `<user_dir>/_global.db`, with lookup
precedence Project → User). The `alias_create` MCP tool accepts new
optional `sources` and `aggregator` arguments so one alias can span
multiple tables and stored aggregate logic:

```jsonc
// Multi-table alias with COUNT aggregator (replays via execute_aggregate).
{ "name": "alias_create", "arguments": {
    "name":       "combined_events_count",
    "sources":    { "kind": "multi", "value": ["events_a", "events_b"] },
    "aggregator": { "kind": "count" },
    "filter":     { "type": "like", "field": "tag", "pattern": "%" }
}}

// Pattern source — resolved against the live registry's table list at
// alias_run time. Matches all currently-mounted `events_*` tables.
{ "name": "alias_create", "arguments": {
    "name":       "all_events_count",
    "sources":    { "kind": "pattern", "value": "events_*" },
    "aggregator": { "kind": "count" },
    "filter":     { "type": "like", "field": "tag", "pattern": "%" }
}}

// alias_run dispatches to execute_aggregate transparently.
{ "name": "alias_run", "arguments": { "name": "all_events_count" } }
// → { "kind": "count", "value": <sum across all events_* tables> }
```

The legacy `table` argument is still accepted and is silently
normalised to `sources = { "kind": "single", "value": "<table>" }`;
specifying both `table` and `sources` is an error.

**Migration**: existing per-table `_aliases` rows are copied into the
project-scope `_global_aliases` automatically on every
`TableRegistry::mount_from_dirs` call. The migration is lossless
(all five legacy fields preserved + `sources = Single(<table>)` filled
in) and idempotent (`INSERT OR IGNORE` skips collisions), so it is safe
to run on every server restart. Per-table `_aliases` tables are not
deleted, preserving a rollback path until a future minor release.

**Phase 2 limitations**

- `Multi` / `Pattern` source aliases require an `aggregator`; running
  them without one returns a structured error (the per-table `list`
  path cannot serve cross-table rows).
- Pattern glob supports `*` only (one or more); `?` / `[]` are reserved
  for a future revision.
- Pattern matching that resolves to zero tables returns
  `AGGREGATOR_ERROR` at `alias_run` time (early surface — does not
  defer to `ATTACH DATABASE`).
- Filter validation uses the schema of the first source table only;
  cross-table schema divergence is the caller's responsibility (same
  constraint as `query_aggregate`).
- Legacy single-table mode (no `MINI_APP_USER_DIR` / `MINI_APP_PROJECT_DIR`)
  falls back to the per-table `Store::alias_*` path; `Pattern` sources
  are rejected in this mode.

## Storage notes

SQLite databases are opened in WAL journal mode for safe concurrent access during `reload`. Sidecar files `<db>.db-wal` and `<db>.db-shm` are created next to each `.db` file — these are managed by SQLite and should not be deleted manually.

## MCP Registry

`mini-app-mcp` is listed on the [MCP Registry](https://registry.modelcontextprotocol.io). The OCI image is published to GitHub Container Registry on every tagged release.

#### Docker (no Rust toolchain required)

```json
{
  "mcpServers": {
    "mini-app": {
      "command": "docker",
      "args": [
        "run", "-i", "--rm",
        "-v", "/path/to/data:/data",
        "ghcr.io/ynishi/mini-app-mcp:latest"
      ]
    }
  }
}
```

## License

MIT OR Apache-2.0
"#;

/// The whole README.
pub open spec fn readme_text() -> Seq<char> {
    README_BASICS@ + README_FILES@ + README_ROWS@ + README_QUERIES@
}

/// The whole README.
pub fn readme() -> (r: String)
    ensures
        r@ == readme_text(),
{
    README_BASICS.to_owned().concat(README_FILES).concat(README_ROWS).concat(README_QUERIES)
}

/// A cheat sheet of the tools.
pub const TOOLS_DOC: &'static str = r#"# mini-app-mcp — Tools Reference

## `table` argument (all tools)

All tools accept an optional `table` argument:
- **Multi-table mode** (`MINI_APP_USER_DIR`/`MINI_APP_PROJECT_DIR` set): `table` is **required**.
  Omitting it returns a `TABLE_REQUIRED` error (`data.code="TABLE_REQUIRED"`).
- **Legacy single-table mode** (`MINI_APP_SCHEMA`+`MINI_APP_DB` set): `table` may be **omitted**.
  The single configured table is used automatically.
- Specifying an unknown table name returns `TABLE_NOT_FOUND` (`data.code="TABLE_NOT_FOUND"`).

## `info`
Return the parsed schema (table name and field definitions) for the given `table`.
- **Input**: `{ "table": "<name>" }` (table optional in legacy mode)
- **Output**: JSON object `{ "table": "...", "title": "...", "description": "...", "fields": [...] }` (`title` and `description` are `null` when not set)
- Annotations: `readOnlyHint=true`, `idempotentHint=true`

## `create`
Create a new row in the given `table`.
- **Input**: `{ "data": { ... }, "table": "<name>" }` — `data` must match `schema.yaml`; `table` optional in legacy mode
- **Output**: created record `{ "id": "...", "data": {...}, "created_at": "...", "updated_at": "..." }`
- Annotations: `readOnlyHint=false`, `idempotentHint=false`

## `get`
Fetch a single row by UUID from the given `table`.
- **Input**: `{ "id": "<uuid>", "table": "<name>" }` (table optional in legacy mode)
- **Output**: record `{ "id": "...", "data": {...}, ... }`
- Annotations: `readOnlyHint=true`, `idempotentHint=true`

## `list`
List rows with optional pagination (ordered by `created_at` descending) from the given `table`.
- **Input**: `{ "limit": <u32 optional>, "offset": <u32 optional>, "table": "<name>" }`
  - `limit` default 100, max 1000; `table` optional in legacy mode
- **Output**: array of records `[{ "id": "...", ... }, ...]`
- Annotations: `readOnlyHint=true`, `idempotentHint=true`

## `update`
Update the `data` of an existing row by UUID in the given `table`. Defaults to RFC 7396 shallow merge.
- **Input**: `{ "id": "<uuid>", "data": { ... }, "table": "<name>", "mode": "merge"|"replace" }`
  - `data` must match `schema.yaml`; `table` optional in legacy mode; `mode` optional (default `"merge"`)
- **Merge mode** (default): fields absent from `data` are preserved from the stored row; `null` deletes an optional field; `null` on a required field returns a Validation error. Full schema validation runs on the merged result (RFC 7396).
- **Replace mode** (`"mode": "replace"`): replaces the entire `data` object — identical to the pre-breaking-change behavior.
- **Output**: updated record `{ "id": "...", "data": {...}, ... }`
- Annotations: `readOnlyHint=false`, `idempotentHint=true`

## `delete`
Delete the row with the given UUID from the given `table`. Returns an error if the row does not exist.
- **Input**: `{ "id": "<uuid>", "table": "<name>" }` (table optional in legacy mode)
- **Output**: `{ "deleted": "<uuid>" }`
- Annotations: `readOnlyHint=false`, `destructiveHint=true`, `idempotentHint=true`

## `reload`
Re-scan `MINI_APP_USER_DIR` / `MINI_APP_PROJECT_DIR` and atomically replace the table registry. Legacy `MINI_APP_SCHEMA` + `MINI_APP_DB` are re-applied if set. In-flight requests complete against the previous snapshot.
- **Input**: `{}` — no arguments required (`table` argument is ignored)
- **Output**: `{ "mounted": N, "added": ["table1", ...], "removed": ["table2", ...] }`
- **Limitations**: no file watcher (explicit invocation only); whole-registry replace (no per-table partial reload); no schema migration for existing rows.
- Annotations: `readOnlyHint=false`, `destructiveHint=false`, `idempotentHint=false`

## `data_snapshot`
Create per-table SQLite snapshot dump(s) under `{scope_root}/_snapshots/`. Uses the rusqlite hot backup API so the source DB remains open and writable during the operation. Schema is not modified.
- **Input**: `{ "table": "<name>" (optional), "scope": "project"|"user" (optional), "dry_run": true|false (optional) }`
  - `table`: target a single table; omit to snapshot all tables in the given scope.
  - `scope`: restrict to `"project"` (`MINI_APP_PROJECT_DIR`) or `"user"` (`MINI_APP_USER_DIR`); omit for all scopes.
  - `dry_run=true`: return `affects` (target tables, row counts, would-purge counts) **without** any FS or DB write.
- **Output (dry_run=false)**: `{ "snapshotted": [{"table": "...", "scope": "...", "snapshot_path": "...", "unix_secs": N}, ...], "purged": [{"table": "...", "generations_removed": N}, ...] }`
- **Output (dry_run=true)**: `{ "dry_run": true, "affects": { "target_tables": [...], "row_counts": {"table": N}, "would_purge_generations": {"table": N} } }`
- **Retention**: controlled by `MINI_APP_SNAPSHOT_RETENTION` (default 10); strictly separate from `MINI_APP_BACKUP_RETENTION`.
- Annotations: `readOnlyHint=false`, `destructiveHint=false`, `idempotentHint=false`

## `row_materialize`
Write row data from a table to absolute filesystem path(s) with multi-format serialisation and SHA-256 integrity digest.
- **Input**: `{ "table": "<name>" (optional), "selector": {...}, "fields": {...}, "format": "...", "dest": "<absolute-path>", "concat": true|false (optional), "write_mode": "overwrite"|"error" (optional), "dry_run": true|false (optional) }`
  - `selector`: `{"type": "by_id", "id": "<uuid>"}` or `{"type": "by_filter", "filter": {...}, "limit": N, "offset": N}`.
  - `fields`: `{"mode": "all"}` (all schema fields in declaration order) or `{"mode": "list", "fields": ["f1", "f2"]}` (named subset in specified order).
  - `format`: `raw` (`.txt`, field values joined by newlines) | `markdown` (`.md`, field headings) | `json` (`.json`, JSON object/array) | `yaml` (`.yaml`, YAML document/stream).
  - `dest`: **absolute path required** — relative paths are rejected immediately (`MATERIALIZE_DEST_RELATIVE`). When `concat=false` this is a directory; when `concat=true` it is the output file path.
  - `concat`: `false` (default) — one file per row at `{dest}/{id}.{ext}`, `row_id` is set in each result. `true` — all rows concatenated into one file at `{dest}`, `row_id` is `null`. `concat=true` with `selector=by_id` is an error.
  - `write_mode`: `overwrite` (default) | `error` (return `MATERIALIZE_DEST_INVALID` if target file already exists; checked even with `dry_run=true`).
  - `dry_run`: `true` — validation, projection, serialisation, and SHA-256 computation run normally but **no file is written**; returned `files` carry would-be `path`, `bytes`, and `sha256` values.
- **Output**: `{ "count": N, "files": [{ "path": "<abs-path>", "bytes": N, "sha256": "<64-char-hex>", "row_id": "<uuid>" | null }, ...] }`
  - `sha256` is always a 64-character lower-hex SHA-256 digest (never empty, even with `dry_run=true`).
  - `row_id` is `null` when `concat=true`; the source row UUID when `concat=false`.
- Annotations: `readOnlyHint=false`, `destructiveHint=true`, `idempotentHint=true`
"#;

/// A table of the error codes.
pub const ERRORS_DOC: &'static str = r#"# mini-app-mcp — Error Code Reference

All MCP errors carry a structured JSON `data` object with at minimum:
```json
{ "code": "<CODE>", "message": "<human text>" }
```

## Error Codes

| Code | HTTP-like | Returned when |
|---|---|---|
| `VALIDATION_ERROR` | 422 | A required field is missing or a value has the wrong JSON type. Also includes `"field": "<name>"` in `data`. |
| `NOT_FOUND` | 404 | No row with the given `id` exists. Also includes `"id": "<id>"` in `data`. |
| `SCHEMA_ERROR` | 500 | `schema.yaml` cannot be parsed or is structurally invalid (startup error). |
| `STORAGE_ERROR` | 500 | Underlying SQLite operation failed. |
| `IO_ERROR` | 500 | File open / read failed (startup error). |
| `CONFIG_ERROR` | 500 | Environment-variable or `.env` configuration is invalid (startup error). |
| `TABLE_NOT_FOUND` | 404 | The specified `table` name is not mounted in the server. Also includes `"table": "<name>"` in `data`. |
| `TABLE_REQUIRED` | 422 | Multi-table mode requires a `table` argument but it was omitted. |
| `SNAPSHOT_ERROR` | 500 | SQLite snapshot creation or purge failed. |
| `MATERIALIZE_DEST_RELATIVE` | 422 | The `dest` path supplied to `row_materialize` is not absolute. Absolute paths are required (Agent-First trust model). Also includes `"path": "<path>"` in `data`. |
| `MATERIALIZE_DEST_INVALID` | 422 | The `dest` path is absolute but invalid (e.g. parent directory cannot be created, or file already exists when `write_mode=error`). Also includes `"path"` and `"reason"` in `data`. |
| `MATERIALIZE_IO_ERROR` | 500 | A filesystem I/O error occurred during `row_materialize` (file write failure). |
| `MATERIALIZE_SHA256_ERROR` | 500 | SHA-256 computation failed during `row_materialize` (e.g. blocking task panic). |
| `MATERIALIZE_ROW_NOT_FOUND` | 404 | The row id specified in a `by_id` selector was not found. Also includes `"id": "<id>"` in `data`. |
| `MATERIALIZE_EMPTY_RESULT` | 404 | The `by_filter` selector matched zero rows. |
| `MATERIALIZE_FORMAT_ERROR` | 500 | Serialisation to the requested format failed during `row_materialize`. |
| `MATERIALIZE_FIELD_UNKNOWN` | 422 | A projected field name is not present in the table schema. Also includes `"field": "<name>"` in `data`. |
| `MATERIALIZE_INVALID_PARAM` | 422 | `row_materialize` parameters are structurally invalid (e.g. `concat=true` with `selector=by_id`). Also includes `"field"` and `"reason"` in `data`. |

## Validation Error Example
```json
{
  "code": "VALIDATION_ERROR",
  "message": "validation error on field 'title': required field missing",
  "field": "title"
}
```

## Not-Found Error Example
```json
{
  "code": "NOT_FOUND",
  "message": "row not found: abc-123",
  "id": "abc-123"
}
```

## Table-Not-Found Error Example
```json
{
  "code": "TABLE_NOT_FOUND",
  "message": "table not found: my_table",
  "table": "my_table"
}
```

## Table-Required Error Example
```json
{
  "code": "TABLE_REQUIRED",
  "message": "table argument is required in multi-table mode"
}
```
"#;

/// A JSON object without members.
pub open spec fn no_members() -> Map<Seq<char>, JsonModel> {
    Map::empty()
}

/// What JSON Schema says of one field.
pub open spec fn property_of(ty: FieldType) -> JsonModel {
    JsonModel::Object(no_members().insert("type"@, JsonModel::Text(schema::name_of_type(ty))))
}

/// What JSON Schema says of the fields; where a name comes twice, the last field
/// counts.
pub open spec fn properties_of(fields: Seq<FieldModel>) -> Map<Seq<char>, JsonModel> {
    pairs::pairs_map(fields.map_values(|f: FieldModel| (f.name, property_of(f.ty))))
}

/// The names of the required fields, in the order of declaration.
pub open spec fn required_names(fields: Seq<FieldModel>) -> Seq<Seq<char>>
    decreases fields.len(),
{
    if fields.len() == 0 {
        Seq::empty()
    } else if fields.last().required {
        required_names(fields.drop_last()).push(fields.last().name)
    } else {
        required_names(fields.drop_last())
    }
}

/// The JSON Schema of the rows of a table.
pub open spec fn json_schema_of(s: SchemaModel) -> JsonModel {
    JsonModel::Object(
        no_members().insert(
            "$schema"@,
            JsonModel::Text("http://json-schema.org/draft-07/schema#"@),
        ).insert("title"@, JsonModel::Text(s.table)).insert(
            "type"@,
            JsonModel::Text("object"@),
        ).insert("properties"@, JsonModel::Object(properties_of(s.fields))).insert(
            "required"@,
            error::text_list(required_names(s.fields)),
        ).insert("additionalProperties"@, JsonModel::Bool(true)),
    )
}

/// Derives a JSON Schema (draft-07) from the schema of a table. Keys that the
/// schema does not name are allowed.
pub fn derive_json_schema(s: &SchemaConfig) -> (r: JsonValue)
    ensures
        r@ == json_schema_of(s@),
{
    let ghost models = s@.fields;
    let ghost all = models.map_values(|f: FieldModel| (f.name, property_of(f.ty)));
    let mut properties: JsonObject = JsonObject::new();
    let mut required: Vec<String> = Vec::new();
    let mut i: usize = 0;
    assert(all.take(0) =~= Seq::<(Seq<char>, JsonModel)>::empty());
    assert(models.take(0) =~= Seq::<FieldModel>::empty());
    assert(text::texts(required@) =~= Seq::<Seq<char>>::empty());
    while i < s.fields.len()
        invariant
            i <= s.fields@.len(),
            models == s@.fields,
            models == schema::field_models(s.fields@),
            all == models.map_values(|f: FieldModel| (f.name, property_of(f.ty))),
            properties@ == pairs::pairs_map(all.take(i as int)),
            text::texts(required@) == required_names(models.take(i as int)),
        decreases s.fields@.len() - i,
    {
        let field: &FieldDef = &s.fields[i];
        assert(all.take(i + 1).drop_last() =~= all.take(i as int));
        assert(all.take(i + 1).last() == (field.name@, property_of(field.ty)));
        assert(models.take(i + 1).drop_last() =~= models.take(i as int));
        assert(models.take(i + 1).last() == field@);
        let mut property: JsonObject = JsonObject::new();
        property.insert("type".to_owned(), JsonValue::Text(field.ty.as_str().to_owned()));
        properties.insert(field.name.clone(), JsonValue::Object(property));
        if field.required {
            let ghost before = text::texts(required@);
            required.push(field.name.clone());
            assert(text::texts(required@) =~= before.push(field.name@));
        }
        i += 1;
    }
    assert(all.take(all.len() as int) =~= all);
    assert(models.take(models.len() as int) =~= models);
    let mut o: JsonObject = JsonObject::new();
    o.insert(
        "$schema".to_owned(),
        JsonValue::Text("http://json-schema.org/draft-07/schema#".to_owned()),
    );
    o.insert("title".to_owned(), JsonValue::Text(s.table.clone()));
    o.insert("type".to_owned(), JsonValue::Text("object".to_owned()));
    o.insert("properties".to_owned(), JsonValue::Object(properties));
    o.insert("required".to_owned(), error::text_array(&required));
    o.insert("additionalProperties".to_owned(), JsonValue::Bool(true));
    JsonValue::Object(o)
}

/// Whether an object meets what a list of fields says in JSON Schema: it has the
/// required keys, and a value of the right kind under each key that is a
/// property.
pub open spec fn meets(fields: Seq<FieldModel>, members: Map<Seq<char>, JsonModel>) -> bool {
    &&& forall|n: Seq<char>| #[trigger]
        required_names(fields).contains(n) ==> members.contains_key(n)
    &&& forall|n: Seq<char>| #[trigger]
        properties_of(fields).contains_key(n) && members.contains_key(n)
            ==> properties_of(fields)[n] == JsonModel::Object(
            no_members().insert("type"@, JsonModel::Text(schema::kind_name(members[n]))),
        )
}

/// No two fields have the same name.
pub open spec fn names_differ(fields: Seq<FieldModel>) -> bool {
    forall|i: int, j: int|
        0 <= i < j < fields.len() ==> (#[trigger] fields[i]).name != (#[trigger] fields[j]).name
}

/// An object that meets the derived JSON Schema is a row that the schema accepts,
/// as long as no field is declared twice.
pub proof fn meeting_json_schema_suffices(
    fields: Seq<FieldModel>,
    members: Map<Seq<char>, JsonModel>,
)
    requires
        meets(fields, members),
        names_differ(fields),
    ensures
        schema::refusal(fields, JsonModel::Object(members)) is None,
{
    assert forall|i: int| 0 <= i < fields.len() implies {
        let field = #[trigger] fields[i];
        if members.contains_key(field.name) && !(members[field.name] is Null) {
            schema::of_type(members[field.name], field.ty)
        } else {
            !field.required
        }
    } by {
        let field = fields[i];
        property_is_declared(fields, i);
        if members.contains_key(field.name) {
            assert(properties_of(fields).contains_key(field.name));
            let kind = no_members().insert(
                "type"@,
                JsonModel::Text(schema::kind_name(members[field.name])),
            );
            let declared = no_members().insert(
                "type"@,
                JsonModel::Text(schema::name_of_type(field.ty)),
            );
            assert(kind == declared);
            assert(kind["type"@] == declared["type"@]);
            kind_names_tell_types(members[field.name], field.ty);
        } else if field.required {
            required_is_listed(fields, i);
            assert(required_names(fields).contains(field.name));
        }
    }
    schema::accepted_exactly_when_conforming(fields, JsonModel::Object(members));
}

/// A row that the schema accepts meets the derived JSON Schema, as long as it has
/// no null under the name of a field: a null stands for a value that is not
/// there, which JSON Schema does not know.
pub proof fn accepted_rows_meet_json_schema(
    fields: Seq<FieldModel>,
    members: Map<Seq<char>, JsonModel>,
)
    requires
        schema::refusal(fields, JsonModel::Object(members)) is None,
        forall|i: int|
            0 <= i < fields.len() && members.contains_key((#[trigger] fields[i]).name) ==> !(
            members[fields[i].name] is Null),
    ensures
        meets(fields, members),
{
    schema::accepted_exactly_when_conforming(fields, JsonModel::Object(members));
    assert forall|n: Seq<char>| #[trigger]
        required_names(fields).contains(n) implies members.contains_key(n) by {
        let i = listed_is_required(fields, n);
        assert(fields[i].name == n);
    }
    assert forall|n: Seq<char>| #[trigger]
        properties_of(fields).contains_key(n) && members.contains_key(n) implies properties_of(
        fields,
    )[n] == JsonModel::Object(
        no_members().insert("type"@, JsonModel::Text(schema::kind_name(members[n]))),
    ) by {
        let i = declared_is_property(fields, n);
        assert(fields[i].name == n);
        assert(schema::of_type(members[n], fields[i].ty));
    }
}

proof fn listed_is_required(fields: Seq<FieldModel>, n: Seq<char>) -> (i: int)
    requires
        required_names(fields).contains(n),
    ensures
        0 <= i < fields.len(),
        fields[i].name == n,
        fields[i].required,
    decreases fields.len(),
{
    let names = required_names(fields);
    let k = choose|k: int| 0 <= k < names.len() && names[k] == n;
    if fields.last().required && k == names.len() - 1 {
        fields.len() - 1
    } else {
        assert(required_names(fields.drop_last())[k] == n);
        listed_is_required(fields.drop_last(), n)
    }
}

proof fn declared_is_property(fields: Seq<FieldModel>, n: Seq<char>) -> (i: int)
    requires
        properties_of(fields).contains_key(n),
    ensures
        0 <= i < fields.len(),
        fields[i].name == n,
        properties_of(fields)[n] == property_of(fields[i].ty),
    decreases fields.len(),
{
    let all = fields.map_values(|f: FieldModel| (f.name, property_of(f.ty)));
    let rest = fields.drop_last();
    assert(all.drop_last() =~= rest.map_values(|f: FieldModel| (f.name, property_of(f.ty))));
    if fields.last().name == n {
        fields.len() - 1
    } else {
        declared_is_property(rest, n)
    }
}

proof fn property_is_declared(fields: Seq<FieldModel>, i: int)
    requires
        0 <= i < fields.len(),
        names_differ(fields),
    ensures
        properties_of(fields).contains_key(fields[i].name),
        properties_of(fields)[fields[i].name] == property_of(fields[i].ty),
    decreases fields.len(),
{
    let all = fields.map_values(|f: FieldModel| (f.name, property_of(f.ty)));
    let rest = fields.drop_last();
    assert(all.drop_last() =~= rest.map_values(|f: FieldModel| (f.name, property_of(f.ty))));
    if i < fields.len() - 1 {
        assert forall|a: int, b: int| 0 <= a < b < rest.len() implies (#[trigger] rest[a]).name
            != (#[trigger] rest[b]).name by {
            assert(rest[a] == fields[a] && rest[b] == fields[b]);
        }
        property_is_declared(rest, i);
        assert(rest[i] == fields[i]);
        assert(fields[i].name != fields[fields.len() - 1].name);
    }
}

proof fn required_is_listed(fields: Seq<FieldModel>, i: int)
    requires
        0 <= i < fields.len(),
        fields[i].required,
    ensures
        required_names(fields).contains(fields[i].name),
    decreases fields.len(),
{
    let rest = fields.drop_last();
    if i < fields.len() - 1 {
        required_is_listed(rest, i);
        assert(rest[i] == fields[i]);
        let k = choose|k: int|
            0 <= k < required_names(rest).len() && required_names(rest)[k] == fields[i].name;
        assert(required_names(fields)[k] == fields[i].name);
    } else {
        assert(required_names(fields).last() == fields[i].name);
    }
}

/// The name of the kind of a value is the name of a type only where the value is
/// of that type.
proof fn kind_names_tell_types(value: JsonModel, ty: FieldType)
    requires
        schema::kind_name(value) == schema::name_of_type(ty),
    ensures
        schema::of_type(value, ty),
        !(value is Null),
{
    reveal_strlit("null");
    reveal_strlit("string");
    reveal_strlit("number");
    reveal_strlit("boolean");
    reveal_strlit("array");
    reveal_strlit("object");
    assert("null"@.len() == 4);
    assert("string"@.len() == 6 && "string"@[0] == 's');
    assert("number"@.len() == 6 && "number"@[0] == 'n');
    assert("boolean"@.len() == 7);
    assert("array"@.len() == 5);
    assert("object"@.len() == 6 && "object"@[0] == 'o');
}

/// An optional text as JSON.
pub open spec fn text_or_null(t: Option<Seq<char>>) -> JsonModel {
    match t {
        Some(s) => JsonModel::Text(s),
        None => JsonModel::Null,
    }
}

fn optional_text(t: &Option<String>) -> (r: JsonValue)
    ensures
        r@ == text_or_null(text::text_option(*t)),
{
    match t {
        Some(s) => JsonValue::Text(s.clone()),
        None => JsonValue::Null,
    }
}

/// An optional text as the text of its JSON.
pub open spec fn shown_or_null(t: Option<Seq<char>>) -> Seq<char> {
    json::json_text(text_or_null(t))
}

/// A field as the `info` tool shows it: its members in the order of declaration.
pub open spec fn field_members(f: FieldModel) -> Seq<(Seq<char>, Seq<char>)> {
    seq![
        ("name"@, json::json_text(JsonModel::Text(f.name))),
        ("type"@, json::json_text(JsonModel::Text(schema::name_of_type(f.ty)))),
        ("required"@, json::json_text(JsonModel::Bool(f.required))),
        ("description"@, shown_or_null(f.description)),
    ]
}

/// The text of a field, as an item of the list of fields.
pub open spec fn field_shown(f: FieldModel) -> Seq<char> {
    members::object_lines(field_members(f), "    "@)
}

fn field_text(field: &FieldDef) -> (r: String)
    ensures
        r@ == field_shown(field@),
{
    let mut o: Vec<(String, String)> = Vec::new();
    o.push(("name".to_owned(), JsonValue::Text(field.name.clone()).to_text()));
    o.push(("type".to_owned(), JsonValue::Text(field.ty.as_str().to_owned()).to_text()));
    o.push(("required".to_owned(), JsonValue::Bool(field.required).to_text()));
    o.push(("description".to_owned(), optional_text(&field.description).to_text()));
    assert(members::member_texts(o@) =~= field_members(field@));
    members::write_object_lines(&o, "    ")
}

/// The name of a way of keeping files in step.
pub open spec fn sync_name(sync: dump::SyncMode) -> Seq<char> {
    match sync {
        dump::SyncMode::WriteOnly => "write-only"@,
        dump::SyncMode::Bidirectional => "bidirectional"@,
    }
}

/// A dump configuration as the `info` tool shows it: its members in the order of
/// declaration.
pub open spec fn dump_members(d: dump::DumpModel) -> Seq<(Seq<char>, Seq<char>)> {
    seq![
        ("dir"@, shown_or_null(d.dir)),
        ("title_field"@, shown_or_null(d.title_field)),
        ("body_field"@, shown_or_null(d.body_field)),
        (
            "sync"@,
            shown_or_null(
                match d.sync {
                    Some(s) => Some(sync_name(s)),
                    None => None,
                },
            ),
        ),
    ]
}

fn dump_text(d: &dump::DumpConfig) -> (r: String)
    ensures
        r@ == members::object_lines(dump_members(d@), "  "@),
{
    let sync: JsonValue = match d.sync {
        Some(dump::SyncMode::WriteOnly) => JsonValue::Text("write-only".to_owned()),
        Some(dump::SyncMode::Bidirectional) => JsonValue::Text("bidirectional".to_owned()),
        None => JsonValue::Null,
    };
    let mut o: Vec<(String, String)> = Vec::new();
    o.push(("dir".to_owned(), optional_text(&d.dir).to_text()));
    o.push(("title_field".to_owned(), optional_text(&d.title_field).to_text()));
    o.push(("body_field".to_owned(), optional_text(&d.body_field).to_text()));
    o.push(("sync".to_owned(), sync.to_text()));
    assert(members::member_texts(o@) =~= dump_members(d@));
    members::write_object_lines(&o, "  ")
}

/// A schema as the `info` tool shows it: its members in the order of declaration.
pub open spec fn schema_members(s: SchemaModel) -> Seq<(Seq<char>, Seq<char>)> {
    let base = seq![
        ("table"@, json::json_text(JsonModel::Text(s.table))),
        ("title"@, shown_or_null(s.title)),
        ("description"@, shown_or_null(s.description)),
        (
            "fields"@,
            members::array_lines(s.fields.map_values(|f: FieldModel| field_shown(f)), "  "@),
        ),
    ];
    match s.dump {
        Some(d) => base.push(("dump"@, members::object_lines(dump_members(d), "  "@))),
        None => base,
    }
}

/// The text of a schema as the `info` tool shows it.
pub open spec fn schema_shown(s: SchemaModel) -> Seq<char> {
    members::object_lines(schema_members(s), ""@)
}

/// The schema as the `info` tool shows it.
pub fn info_text(s: &SchemaConfig) -> (r: String)
    ensures
        r@ == schema_shown(s@),
{
    let mut items: Vec<String> = Vec::new();
    let mut i: usize = 0;
    while i < s.fields.len()
        invariant
            i <= s.fields@.len(),
            items@.len() == i,
            forall|j: int| 0 <= j < i ==> (#[trigger] items@[j])@ == field_shown(s.fields@[j]@),
        decreases s.fields@.len() - i,
    {
        items.push(field_text(&s.fields[i]));
        i += 1;
    }
    assert(text::texts(items@) =~= s@.fields.map_values(|f: FieldModel| field_shown(f)));
    let mut o: Vec<(String, String)> = Vec::new();
    o.push(("table".to_owned(), JsonValue::Text(s.table.clone()).to_text()));
    o.push(("title".to_owned(), optional_text(&s.title).to_text()));
    o.push(("description".to_owned(), optional_text(&s.description).to_text()));
    o.push(("fields".to_owned(), members::write_array_lines(&items, "  ")));
    match &s.dump {
        Some(d) => {
            o.push(("dump".to_owned(), dump_text(d)));
        },
        None => {},
    }
    assert(members::member_texts(o@) =~= schema_members(s@));
    members::write_object_lines(&o, "")
}

pub const URI_SCHEMA_YAML: &'static str = "schema://yaml";

pub const URI_SCHEMA_JSON: &'static str = "schema://json";

pub const URI_SCHEMA_JSON_SCHEMA: &'static str = "schema://json-schema";

pub const URI_DOCS_README: &'static str = "docs://readme";

pub const URI_DOCS_TOOLS: &'static str = "docs://tools";

pub const URI_DOCS_ERRORS: &'static str = "docs://errors";

/// A resource that is offered.
#[derive(Debug, Clone, Copy, PartialEq, Eq)]
pub struct ResourceInfo {
    pub uri: &'static str,
    pub name: &'static str,
    pub description: &'static str,
    pub mime_type: &'static str,
}

/// The resources by their numbers.
pub open spec fn resource(i: int) -> ResourceInfo {
    if i == 0 {
        ResourceInfo {
            uri: URI_SCHEMA_YAML,
            name: "Schema YAML",
            description: "Raw schema.yaml file content (read at request time).",
            mime_type: "application/yaml",
        }
    } else if i == 1 {
        ResourceInfo {
            uri: URI_SCHEMA_JSON,
            name: "Schema JSON",
            description: "SchemaConfig serialised as JSON — same content as the `info` tool.",
            mime_type: "application/json",
        }
    } else if i == 2 {
        ResourceInfo {
            uri: URI_SCHEMA_JSON_SCHEMA,
            name: "JSON Schema",
            description:
                "JSON Schema (draft-07) derived from SchemaConfig.fields — use this to validate `data` arguments before calling `create`/`update`.",
            mime_type: "application/schema+json",
        }
    } else if i == 3 {
        ResourceInfo {
            uri: URI_DOCS_README,
            name: "README",
            description: "README.md — embedded in the binary at compile time.",
            mime_type: "text/markdown",
        }
    } else if i == 4 {
        ResourceInfo {
            uri: URI_DOCS_TOOLS,
            name: "Tools Reference",
            description: "Cheat sheet listing all tools with descriptions and input shapes.",
            mime_type: "text/markdown",
        }
    } else {
        ResourceInfo {
            uri: URI_DOCS_ERRORS,
            name: "Error Code Reference",
            description: "Reference table of all error codes returned by this server.",
            mime_type: "text/markdown",
        }
    }
}

/// The resources that are offered.
pub fn resource_list() -> (r: Vec<ResourceInfo>)
    ensures
        r@.len() == 6,
        forall|i: int| 0 <= i < 6 ==> #[trigger] r@[i] == resource(i),
{
    let mut r: Vec<ResourceInfo> = Vec::new();
    r.push(
        ResourceInfo {
            uri: URI_SCHEMA_YAML,
            name: "Schema YAML",
            description: "Raw schema.yaml file content (read at request time).",
            mime_type: "application/yaml",
        },
    );
    r.push(
        ResourceInfo {
            uri: URI_SCHEMA_JSON,
            name: "Schema JSON",
            description: "SchemaConfig serialised as JSON — same content as the `info` tool.",
            mime_type: "application/json",
        },
    );
    r.push(
        ResourceInfo {
            uri: URI_SCHEMA_JSON_SCHEMA,
            name: "JSON Schema",
            description:
                "JSON Schema (draft-07) derived from SchemaConfig.fields — use this to validate `data` arguments before calling `create`/`update`.",
            mime_type: "application/schema+json",
        },
    );
    r.push(
        ResourceInfo {
            uri: URI_DOCS_README,
            name: "README",
            description: "README.md — embedded in the binary at compile time.",
            mime_type: "text/markdown",
        },
    );
    r.push(
        ResourceInfo {
            uri: URI_DOCS_TOOLS,
            name: "Tools Reference",
            description: "Cheat sheet listing all tools with descriptions and input shapes.",
            mime_type: "text/markdown",
        },
    );
    r.push(
        ResourceInfo {
            uri: URI_DOCS_ERRORS,
            name: "Error Code Reference",
            description: "Reference table of all error codes returned by this server.",
            mime_type: "text/markdown",
        },
    );
    r
}

/// What a resource holds.
#[derive(Debug, PartialEq, Eq)]
pub enum ResourceBody {
    /// The content of the schema file, as it is on disk.
    SchemaFile,
    /// This text.
    Text(String),
}

/// What a resource holds, as a model.
pub enum BodyModel {
    SchemaFile,
    Text(Seq<char>),
}

impl View for ResourceBody {
    type V = BodyModel;

    open spec fn view(&self) -> BodyModel {
        match self {
            ResourceBody::SchemaFile => BodyModel::SchemaFile,
            ResourceBody::Text(t) => BodyModel::Text(t@),
        }
    }
}

/// What the resource under `uri` holds, and its MIME type; or the complaint that
/// there is none.
pub open spec fn resource_at(uri: Seq<char>, s: SchemaModel) -> Result<
    (BodyModel, Seq<char>),
    Seq<char>,
> {
    if uri == URI_SCHEMA_YAML@ {
        Ok((BodyModel::SchemaFile, "application/yaml"@))
    } else if uri == URI_SCHEMA_JSON@ {
        Ok((BodyModel::Text(schema_shown(s)), "application/json"@))
    } else if uri == URI_SCHEMA_JSON_SCHEMA@ {
        Ok(
            (
                BodyModel::Text(json::json_pretty_text(json_schema_of(s))),
                "application/schema+json"@,
            ),
        )
    } else if uri == URI_DOCS_README@ {
        Ok((BodyModel::Text(readme_text()), "text/markdown"@))
    } else if uri == URI_DOCS_TOOLS@ {
        Ok((BodyModel::Text(TOOLS_DOC@), "text/markdown"@))
    } else if uri == URI_DOCS_ERRORS@ {
        Ok((BodyModel::Text(ERRORS_DOC@), "text/markdown"@))
    } else {
        Err("unknown resource URI: "@ + uri)
    }
}

/// The outcome of reading a resource, as a model.
pub open spec fn resource_outcome(r: Result<(ResourceBody, &'static str), String>) -> Result<
    (BodyModel, Seq<char>),
    Seq<char>,
> {
    match r {
        Ok((body, mime)) => Ok((body@, mime@)),
        Err(e) => Err(e@),
    }
}

/// Reads the resource under `uri`, for a table with the schema `s`.
pub fn read_resource_impl(uri: &str, s: &SchemaConfig) -> (r: Result<
    (ResourceBody, &'static str),
    String,
>)
    ensures
        resource_outcome(r) == resource_at(uri@, s@),
{
    if text::same_text(uri, URI_SCHEMA_YAML) {
        Ok((ResourceBody::SchemaFile, "application/yaml"))
    } else if text::same_text(uri, URI_SCHEMA_JSON) {
        Ok((ResourceBody::Text(info_text(s)), "application/json"))
    } else if text::same_text(uri, URI_SCHEMA_JSON_SCHEMA) {
        Ok(
            (
                ResourceBody::Text(derive_json_schema(s).to_pretty_text()),
                "application/schema+json",
            ),
        )
    } else if text::same_text(uri, URI_DOCS_README) {
        Ok((ResourceBody::Text(readme()), "text/markdown"))
    } else if text::same_text(uri, URI_DOCS_TOOLS) {
        Ok((ResourceBody::Text(TOOLS_DOC.to_owned()), "text/markdown"))
    } else if text::same_text(uri, URI_DOCS_ERRORS) {
        Ok((ResourceBody::Text(ERRORS_DOC.to_owned()), "text/markdown"))
    } else {
        Err("unknown resource URI: ".to_owned().concat(uri))
    }
}

/// Every resource that is offered can be read, and comes with the MIME type that
/// was announced.
pub proof fn offered_resources_can_be_read(i: int, s: SchemaModel)
    requires
        0 <= i < 6,
    ensures
        resource_at(resource(i).uri@, s) matches Ok((body, mime)) && mime
            == resource(i).mime_type@,
{
    reveal_strlit("schema://yaml");
    reveal_strlit("schema://json");
    reveal_strlit("schema://json-schema");
    reveal_strlit("docs://readme");
    reveal_strlit("docs://tools");
    reveal_strlit("docs://errors");
    assert(URI_SCHEMA_YAML@.len() == 13 && URI_SCHEMA_YAML@[0] == 's' && URI_SCHEMA_YAML@[9]
        == 'y');
    assert(URI_SCHEMA_JSON@.len() == 13 && URI_SCHEMA_JSON@[0] == 's' && URI_SCHEMA_JSON@[9]
        == 'j');
    assert(URI_SCHEMA_JSON_SCHEMA@.len() == 20);
    assert(URI_DOCS_README@.len() == 13 && URI_DOCS_README@[0] == 'd' && URI_DOCS_README@[7]
        == 'r');
    assert(URI_DOCS_TOOLS@.len() == 12);
    assert(URI_DOCS_ERRORS@.len() == 13 && URI_DOCS_ERRORS@[0] == 'd' && URI_DOCS_ERRORS@[7]
        == 'e');
}

proof fn schema_keys_differ()
    ensures
        "$schema"@ != "title"@ && "$schema"@ != "type"@ && "$schema"@ != "properties"@,
        "$schema"@ != "required"@ && "$schema"@ != "additionalProperties"@,
        "title"@ != "type"@ && "title"@ != "properties"@ && "title"@ != "required"@,
        "title"@ != "additionalProperties"@ && "type"@ != "properties"@ && "type"@ != "required"@,
        "type"@ != "additionalProperties"@ && "properties"@ != "required"@,
        "properties"@ != "additionalProperties"@ && "required"@ != "additionalProperties"@,
{
    reveal_strlit("$schema");
    reveal_strlit("title");
    reveal_strlit("type");
    reveal_strlit("properties");
    reveal_strlit("required");
    reveal_strlit("additionalProperties");
    assert("$schema"@.len() == 7 && "title"@.len() == 5 && "type"@.len() == 4);
    assert("properties"@.len() == 10 && "required"@.len() == 8);
    assert("additionalProperties"@.len() == 20);
}

/// The names of required fields are listed in the order of declaration.
proof fn required_names_are_in_order(fields: Seq<FieldModel>)
    ensures
        required_names(fields) == fields.filter(|f: FieldModel| f.required).map_values(
            |f: FieldModel| f.name,
        ),
    decreases fields.len(),
{
    reveal(Seq::filter);
    let all = fields.filter(|f: FieldModel| f.required).map_values(|f: FieldModel| f.name);
    if fields.len() > 0 {
        let front = fields.drop_last();
        required_names_are_in_order(front);
        let before = front.filter(|f: FieldModel| f.required).map_values(|f: FieldModel| f.name);
        if fields.last().required {
            assert(all =~= before.push(fields.last().name));
        } else {
            assert(all =~= before);
        }
    } else {
        assert(all =~= Seq::<Seq<char>>::empty());
    }
}

/// What the derived JSON Schema says: that rows of this table are objects, that they
/// must have the fields that are required, listed in the order of declaration, that a
/// field has the type of its last declaration, and that other members are allowed.
pub proof fn json_schemas_say_what_schemas_say(s: SchemaModel, i: int)
    ensures
        ({
            let js = json_schema_of(s);
            &&& json::says(
                js,
                "$schema"@,
                JsonModel::Text("http://json-schema.org/draft-07/schema#"@),
            )
            &&& json::says(js, "title"@, JsonModel::Text(s.table))
            &&& json::says(js, "type"@, JsonModel::Text("object"@))
            &&& json::says(js, "additionalProperties"@, JsonModel::Bool(true))
            &&& exists|l: JsonModel| #[trigger]
                json::says(js, "required"@, l) && json::lists(
                    l,
                    s.fields.filter(|f: FieldModel| f.required).map_values(|f: FieldModel| f.name),
                )
            &&& exists|p: JsonModel| #[trigger]
                json::says(js, "properties"@, p) && p is Object && (forall|n: Seq<char>| #[trigger]
                    p->Object_0.contains_key(n) <==> exists|k: int|
                        0 <= k < s.fields.len() && (#[trigger] s.fields[k]).name == n) && (0 <= i
                    < s.fields.len() && (forall|k: int|
                    i < k < s.fields.len() ==> (#[trigger] s.fields[k]).name != s.fields[i].name)
                    ==> json::says(
                    p->Object_0[s.fields[i].name],
                    "type"@,
                    JsonModel::Text(schema::name_of_type(s.fields[i].ty)),
                ))
        }),
{
    schema_keys_differ();
    required_names_are_in_order(s.fields);
    let js = json_schema_of(s);
    let names = s.fields.filter(|f: FieldModel| f.required).map_values(|f: FieldModel| f.name);
    let l = error::text_list(names);
    assert(json::says(js, "required"@, l));
    assert(json::lists(l, names));
    let p = JsonModel::Object(properties_of(s.fields));
    assert(json::says(js, "properties"@, p));
    let all = s.fields.map_values(|f: FieldModel| (f.name, property_of(f.ty)));
    assert forall|n: Seq<char>| #[trigger] properties_of(s.fields).contains_key(n) <==> exists|k: int|
        0 <= k < s.fields.len() && (#[trigger] s.fields[k]).name == n by {
        pairs::pairs_map_keys(all, n);
        if properties_of(s.fields).contains_key(n) {
            let k = choose|k: int| 0 <= k < all.len() && (#[trigger] all[k]).0 == n;
            assert(s.fields[k].name == n);
        }
        if exists|k: int| 0 <= k < s.fields.len() && (#[trigger] s.fields[k]).name == n {
            let k = choose|k: int| 0 <= k < s.fields.len() && (#[trigger] s.fields[k]).name == n;
            assert(all[k].0 == n);
        }
    }
    if 0 <= i < s.fields.len() && (forall|k: int|
        i < k < s.fields.len() ==> (#[trigger] s.fields[k]).name != s.fields[i].name) {
        assert forall|k: int| i < k < all.len() implies (#[trigger] all[k]).0 != all[i].0 by {
            assert(s.fields[k].name != s.fields[i].name);
        }
        pairs::pairs_map_last(all, i);
        assert(all[i] == (s.fields[i].name, property_of(s.fields[i].ty)));
        assert(json::says(
            property_of(s.fields[i].ty),
            "type"@,
            JsonModel::Text(schema::name_of_type(s.fields[i].ty)),
        ));
    }
}

/// What a schema is shown as: its table, title and description, its fields in the
/// order of declaration, each with its name, type, description and whether it is
/// required, and where its rows are written to, if anywhere. What is not set is null.
pub proof fn schemas_are_shown_whole(s: SchemaModel, f: FieldModel, d: dump::DumpModel)
    ensures
        schema_shown(s) == members::object_lines(schema_members(s), ""@),
        schema_members(s).len() == (if s.dump is Some {
            5int
        } else {
            4int
        }),
        schema_members(s)[0] == ("table"@, json::json_text(JsonModel::Text(s.table))),
        schema_members(s)[1] == ("title"@, json::json_text(
            if s.title is Some {
                JsonModel::Text(s.title->0)
            } else {
                JsonModel::Null
            },
        )),
        schema_members(s)[2] == ("description"@, json::json_text(
            if s.description is Some {
                JsonModel::Text(s.description->0)
            } else {
                JsonModel::Null
            },
        )),
        schema_members(s)[3].0 == "fields"@,
        exists|texts: Seq<Seq<char>>|
            #![trigger members::array_lines(texts, "  "@)]
            schema_members(s)[3].1 == members::array_lines(texts, "  "@) && texts.len()
                == s.fields.len() && forall|i: int|
                0 <= i < texts.len() ==> #[trigger] texts[i] == field_shown(s.fields[i]),
        field_shown(f) == members::object_lines(
            seq![
                ("name"@, json::json_text(JsonModel::Text(f.name))),
                ("type"@, json::json_text(JsonModel::Text(schema::name_of_type(f.ty)))),
                ("required"@, json::json_text(JsonModel::Bool(f.required))),
                ("description"@, json::json_text(
                    if f.description is Some {
                        JsonModel::Text(f.description->0)
                    } else {
                        JsonModel::Null
                    },
                )),
            ],
            "    "@,
        ),
        s.dump matches Some(c) ==> schema_members(s)[4] == ("dump"@, members::object_lines(
            dump_members(c),
            "  "@,
        )),
        dump_members(d).len() == 4,
        d.dir matches Some(t) ==> dump_members(d)[0] == ("dir"@, json::json_text(JsonModel::Text(t))),
        d.title_field matches Some(t) ==> dump_members(d)[1] == ("title_field"@, json::json_text(
            JsonModel::Text(t),
        )),
        d.body_field matches Some(t) ==> dump_members(d)[2] == ("body_field"@, json::json_text(
            JsonModel::Text(t),
        )),
        d.sync == Some(dump::SyncMode::WriteOnly) ==> dump_members(d)[3] == (
            "sync"@,
            json::json_text(JsonModel::Text("write-only"@)),
        ),
        d.sync == Some(dump::SyncMode::Bidirectional) ==> dump_members(d)[3] == (
            "sync"@,
            json::json_text(JsonModel::Text("bidirectional"@)),
        ),
        d.dir is None ==> dump_members(d)[0] == ("dir"@, json::json_text(JsonModel::Null)),
        d.title_field is None ==> dump_members(d)[1] == ("title_field"@, json::json_text(
            JsonModel::Null,
        )),
        d.body_field is None ==> dump_members(d)[2] == ("body_field"@, json::json_text(
            JsonModel::Null,
        )),
        d.sync is None ==> dump_members(d)[3] == ("sync"@, json::json_text(JsonModel::Null)),
{
    let texts = s.fields.map_values(|f: FieldModel| field_shown(f));
    assert(schema_members(s)[3].1 == members::array_lines(texts, "  "@));
}

/// What is read under each URI: the schema file, the schema as the `info` tool shows
/// it, the JSON Schema of the rows, and the three documents; anything else is refused.
pub proof fn resources_hold_what_they_say(uri: Seq<char>, s: SchemaModel)
    ensures
        uri == "schema://yaml"@ ==> resource_at(uri, s) == Ok::<(BodyModel, Seq<char>), Seq<char>>(
            (BodyModel::SchemaFile, "application/yaml"@),
        ),
        uri == "schema://json"@ ==> resource_at(uri, s) == Ok::<(BodyModel, Seq<char>), Seq<char>>(
            (BodyModel::Text(schema_shown(s)), "application/json"@),
        ),
        uri == "schema://json-schema"@ ==> resource_at(uri, s) == Ok::<
            (BodyModel, Seq<char>),
            Seq<char>,
        >(
            (
                BodyModel::Text(json::json_pretty_text(json_schema_of(s))),
                "application/schema+json"@,
            ),
        ),
        uri == "docs://readme"@ ==> resource_at(uri, s) == Ok::<(BodyModel, Seq<char>), Seq<char>>(
            (
                BodyModel::Text(
                    README_BASICS@ + README_FILES@ + README_ROWS@ + README_QUERIES@,
                ),
                "text/markdown"@,
            ),
        ),
        uri == "docs://tools"@ ==> resource_at(uri, s) == Ok::<(BodyModel, Seq<char>), Seq<char>>(
            (BodyModel::Text(TOOLS_DOC@), "text/markdown"@),
        ),
        uri == "docs://errors"@ ==> resource_at(uri, s) == Ok::<(BodyModel, Seq<char>), Seq<char>>(
            (BodyModel::Text(ERRORS_DOC@), "text/markdown"@),
        ),
        uri != "schema://yaml"@ && uri != "schema://json"@ && uri != "schema://json-schema"@ && uri
            != "docs://readme"@ && uri != "docs://tools"@ && uri != "docs://errors"@ ==> resource_at(
            uri,
            s,
        ) == Err::<(BodyModel, Seq<char>), Seq<char>>("unknown resource URI: "@ + uri),
{
    reveal_strlit("schema://yaml");
    reveal_strlit("schema://json");
    reveal_strlit("schema://json-schema");
    reveal_strlit("docs://readme");
    reveal_strlit("docs://tools");
    reveal_strlit("docs://errors");
    assert(URI_SCHEMA_YAML@.len() == 13 && URI_SCHEMA_YAML@[0] == 's' && URI_SCHEMA_YAML@[9]
        == 'y');
    assert(URI_SCHEMA_JSON@.len() == 13 && URI_SCHEMA_JSON@[0] == 's' && URI_SCHEMA_JSON@[9]
        == 'j');
    assert(URI_SCHEMA_JSON_SCHEMA@.len() == 20);
    assert(URI_DOCS_README@.len() == 13 && URI_DOCS_README@[0] == 'd' && URI_DOCS_README@[7]
        == 'r');
    assert(URI_DOCS_TOOLS@.len() == 12);
    assert(URI_DOCS_ERRORS@.len() == 13 && URI_DOCS_ERRORS@[0] == 'd' && URI_DOCS_ERRORS@[7]
        == 'e');
}

/// What is offered under each number: the URI, the name, what it is, and the MIME type
/// that is given when it is read.
pub proof fn resources_are_offered_by_their_names(i: int, s: SchemaModel)
    requires
        0 <= i < 6,
    ensures
        resource_at(resource(i).uri@, s) matches Ok((_, mime)) && mime == resource(i).mime_type@,
        i == 0 ==> resource(i).uri@ == "schema://yaml"@ && resource(i).name@ == "Schema YAML"@
            && resource(i).description@ == "Raw schema.yaml file content (read at request time)."@,
        i == 1 ==> resource(i).uri@ == "schema://json"@ && resource(i).name@ == "Schema JSON"@
            && resource(i).description@
            == "SchemaConfig serialised as JSON — same content as the `info` tool."@,
        i == 2 ==> resource(i).uri@ == "schema://json-schema"@ && resource(i).name@
            == "JSON Schema"@ && resource(i).description@
            == "JSON Schema (draft-07) derived from SchemaConfig.fields — use this to validate `data` arguments before calling `create`/`update`."@,
        i == 3 ==> resource(i).uri@ == "docs://readme"@ && resource(i).name@ == "README"@
            && resource(i).description@ == "README.md — embedded in the binary at compile time."@,
        i == 4 ==> resource(i).uri@ == "docs://tools"@ && resource(i).name@ == "Tools Reference"@
            && resource(i).description@
            == "Cheat sheet listing all tools with descriptions and input shapes."@,
        i == 5 ==> resource(i).uri@ == "docs://errors"@ && resource(i).name@
            == "Error Code Reference"@ && resource(i).description@
            == "Reference table of all error codes returned by this server."@,
{
    resources_hold_what_they_say(resource(i).uri@, s);
}

/// What is read of a resource is what was returned.
pub proof fn bodies_are_what_was_returned(b: ResourceBody, mime: &'static str, e: String)
    ensures
        b is SchemaFile <==> b@ is SchemaFile,
        b matches ResourceBody::Text(t) ==> b@ == BodyModel::Text(t@),
        resource_outcome(Ok((b, mime))) == Ok::<(BodyModel, Seq<char>), Seq<char>>((b@, mime@)),
        resource_outcome(Err(e)) == Err::<(BodyModel, Seq<char>), Seq<char>>(e@),
{
}

} // verus!
