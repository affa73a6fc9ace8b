# deployable

Turns a project's configuration into deployable services and says what a
deployment plan asks for. The library in `src/` is written in Verus; every
function carries a contract over character sequences and maps, and `laws.rs`
states the properties that tie the functions together.

- `strmap` — an insertion-ordered string map whose keys are distinct (a type invariant).
- `text` — decimal formatting and `u64` parsing, prefixes, trimming.
- `envvalue` — environment values: literal text, `${{ this.<service>.<method> }}`
  (`connection`/`conn` or `internal`/`link`/`url` of another service) and
  `${{ secret.<key> }}`; spaces inside the braces are ignored.
- `deployable` — deployables made from app, service and database configuration,
  connectables, environment resolution, choice of the newest image, routing
  labels and the service request.
- `builds`, `plan` — build tasks of a project's applications; merging of
  filters and summary of a plan.
- `laws` — proofs of the cross-function properties.

`app/` holds the parts that talk to the container engine, the remote server and
the file system; it makes no decision of its own.
