# iLL

iLL is a scripting language for integration tests of several systems at once. A
program declares actors (host processes, containers, PostgreSQL and MQTT clients)
and drives them in `as` blocks:

```
actor db = container,
  image: "postgres:18"
  internal_port: 5432

actor alice = pg_client

as db:
  run,
    external_port: 5432

as alice:
  connect,
    user: "postgres"
    database: "postgres"
  query ~sql`SELECT 1`
  assert ok.row[0][0] == 1
```

`ill check` reports what is wrong with programs without running them; `ill test`
runs them.

## Layout

- `src/` is the library, verified with Verus. It holds everything that is
  decided: the syntax tree and its lowering, the actor types and what they
  declare, the validator, the evaluation of expressions and assertions, the course
  of a test run, the requests that actors make of the systems they drive, and the
  reports.
- `app/` is the `ill` command: it reads files, parses them with tree-sitter, and
  performs what the library asks for.
- `tests/` runs the library.

Each type has a model (`view`) over mathematical sequences and maps, and each
function a contract over those models. Functions called `law_*` state what holds
across functions, such as that a validated block and its run take the same branch
of every command.
