# mini-app-mcp

A small table store for agents, served over MCP. The shape of each table is given by a
`schema.yaml` file; rows are JSON objects in SQLite. The decisions of the server (what a schema
accepts, what an update changes, which steps a tool takes and in which order, what is kept and
what is deleted) are verified with Verus.

## schema.yaml

```yaml
table: issues
title: "Issue tracker"
description: "Tracks bugs and feature requests for a project."
fields:
  - name: title
    type: string
    required: true
    description: "Short one-line summary of the issue."
  - name: tags
    type: array
```

Types are `string`, `number`, `boolean`, `array` and `object`. A row must have every required
field, and a value of the declared type in each declared field that it has. Keys that the schema
does not name are accepted.

## Configuration

| Environment variable | Default | Meaning |
|---|---|---|
| `MINI_APP_USER_DIR` | `~/.mini-app` | Tables of the user: `<dir>/<table>/schema.yaml`, `<dir>/<table>/<table>.db` |
| `MINI_APP_PROJECT_DIR` | `./.mini-app` | Tables of the project. A table here takes the place of one of the user. |
| `MINI_APP_SCHEMA`, `MINI_APP_DB` | none | Legacy mode: one table, which is the default table |
| `MINI_APP_BACKUP_RETENTION` | `10` | Backups kept per table |
| `MINI_APP_SNAPSHOT_RETENTION` | `10` | Snapshots kept per table |

All of them can stand in a `.mini-app-mcp.env` file in the working directory.

## Tools

`info`, `create`, `get`, `list`, `update`, `delete`, `reload`, `schema_create`, `schema_update`,
`schema_delete`, `schema_batch`, `data_snapshot`. Every tool that is about one table takes a
`table` argument, which may be left out in legacy mode.

- `list` takes a filter of `eq`, `in`, `like`, `or` and `and`. Values are bound to placeholders and
  never become part of a statement.
- `update` merges by default: fields that are left out stay, `null` takes a field away unless it is
  required, and the merged row must still conform to the schema.
- The schema tools keep a backup before they replace or remove a schema file, and never touch a
  database. With `dry_run` they report and do nothing.
- `schema_batch` runs all its ops or none: schema files change only after the savepoint is
  committed.
- `data_snapshot` copies databases while they are in use and keeps the newest copies.

Every error carries a code and a text, and what the code calls for: see `docs://errors`.

## Layout

- `src/` is the verified library. `src/json.rs` holds JSON values and the exchange with
  `serde_json`; `src/members.rs` the texts of objects whose members keep an order; `src/schema.rs`, `src/filter.rs` and `src/store.rs` the rules for rows;
  `src/snapshot.rs` the copies of tables; `src/mcp/` the tools, each of which makes a plan of steps.
- `app/` is the server around it: files, SQLite, and the MCP transport.
- `tests/` runs the library.

Start the server with `mini-app-mcp --mcp`.
