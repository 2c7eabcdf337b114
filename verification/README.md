# viscacha

A job queue server with a verified core. Jobs are enqueued, claimed by
workers under a timed lease, completed or failed (re-queued while retries
remain), cancelled or retried. Every mutation except a lease heartbeat is
recorded in an event log: enqueues, completions, failures, cancellations,
retries, purges, expiries and drains are appended before they are applied,
a claim right after it is made. Replaying the log (from the latest
snapshot) rebuilds the same store.

## Layout

- `src/` — the library, verified with Verus:
  - `types.rs`: jobs, ids, statuses.
  - `space.rs`: the in-memory store and its operations, with a model of the
    store as a sequence of jobs; first-in first-out claim order.
  - `event.rs`, `replay.rs`: logged events and replaying them.
  - `durable.rs`: the store together with its log: the event each
    operation appends, and when replaying the log gives the store back.
  - `persist.rs`: what is checked before an event is logged, and which
    jobs an expiry, purge or drain touches.
  - `laws.rs`: properties across operations (leases held exactly while
    claimed, replay of each logged event, expiry, drain and purge replay,
    snapshot restore, recovery).
  - `api.rs`, `error.rs`: errors as the HTTP layer reports them, status
    filters, authorization.
  - `metrics.rs`, `trace.rs`: aggregates for monitoring and job timelines.
  - `clock.rs`, `text.rs`: clamped time arithmetic, string comparison.
- `app/` — the server: HTTP routes (axum), the SQLite event log and
  snapshots (rusqlite), JSON encoding (serde), background tasks (tokio).
- `tests/` — tests of the library.

Times in the library are integer nanoseconds since the Unix epoch; the
server converts to and from the fractional seconds of the wire format. Job
arguments and results are JSON documents, held by the library as text.

## Running

```bash
viscacha jobs.db            # persistent
viscacha                    # in memory
viscacha jobs.db 0.0.0.0:9000
```

Set `VISCACHA_API_KEY` to require `Authorization: Bearer <key>` on every
request except `/` and `/openapi.json`.
