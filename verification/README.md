# spark_dashboard

The backend of a small monitoring dashboard for a single machine: a collector
daemon samples memory, thermal sensors, CPU/GPU load and GPU power into a
SQLite history, and a server answers an HTTP API over that history and serves
the frontend. The two talk over a Unix control socket.

## Layout

- `src/` — the library, verified with Verus. It holds the parsers of the
  `/proc` and `/sys` texts, the configuration file syntax, the identification
  of thermal zones, the sampling guards and the collector's decisions, the
  control protocol's validation and responses, the HTTP routing, query
  parameters and replies, and the database's timestamp conventions. Each
  public function states its result in its contract; the properties that span
  several calls are public proof functions (`law_*`, `lemma_assoc_*`,
  `lemma_timestamp_roundtrip`).
- `tests/` — tests of the library on concrete values.
- `app/` — the two daemons (`collect` and `serve`): file, process, socket,
  database and HTTP I/O, serialization, and the floating-point figures
  (utilization percentages, load averages, power), calling the library for
  every decision.

Temperatures are millidegrees Celsius (integers) in the library, and degrees
Celsius on the wire and in the database.
