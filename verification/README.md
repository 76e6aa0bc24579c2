# rotappo

Verified core of the rotappo/phenome cluster tooling, written in Verus.

`src/` is the library. Every function in it carries a contract that Verus
checks, over mathematical models (`Seq`, `Map`, spec functions and views):

- `actions` – the action registry of the operator UI.
- `events`, `text` – bootstrap events and the log lines they produce.
- `projection`, `status_cache`, `adapter` – the UI projection of a bootstrap
  run: component states, run summary and a short-lived cache of detailed
  reports.
- `assembly`, `access`, `health` – assembly steps as the UI shows them
  (readiness gates, pods, module tables), service access URLs, and the live
  module health monitor.
- `domain`, `query`, `aggregate`, `series`, `codec`, `storage` – analytics
  records, query filters, window grouping, time series, stored names and
  retention cutoffs.
- `cache` – a time-to-live, least-recently-used cache.
- `clusters`, `scheduler`, `notify` – cluster registry and metrics samples,
  scheduling decisions, anomaly notifications and channel configuration.
- `cli`, `summary`, `config`, `ml` – command planning, prompts and the
  configuration schema.
- `wire` – the records exchanged with the ML and analytics services and
  their mapping to and from the domain records.
- `requests` – the analytics service's requests as they arrive, read into
  domain queries (strict or lenient enum reading, refusals and their texts),
  and the choice of when a query starts anomaly detection.

Measured values (floating point) never enter the library: records that carry
them take them as a type parameter the logic does not read.

`app/` is ordinary Rust around the library: configuration files, the SQLite
store (samples, aggregates and scheduled actions), metrics collection from
the cluster, background loops, notification delivery and the floating-point
statistics.

`tests/` exercises the library on concrete values.
