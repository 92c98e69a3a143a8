# dr_metrix

Prometheus exporters for PostgreSQL, Redis and MongoDB with an Axum
integration, split in two:

- `src/` — the verified library. It holds what the exporters
  decide and compute on the values they read:
  - `info_parser` — reading Redis `INFO ALL` text, with its model and laws;
  - `number`, `text` — decimal integers as `str::parse` reads them and
    `Display` writes them, trimming, splitting, comparing;
  - `redis`, `mongo`, `postgres` — the gauge values one collection round
    sets, the statistics queries, the pool figures;
  - `catalog` — name, help text and labels of every metric, and the proof
    that no two of them share a full name under any namespace;
  - `http`, `state`, `collector` — request labels, the `/health` body, the
    builder, the record of background collectors, the shared configuration.
- `app/` — ordinary Rust around it: the Prometheus registry and metric
  objects, the database drivers (diesel, deadpool, sea-orm, fred, mongodb),
  the Tower middleware and the Axum handlers.
- `tests/` — tests of the library on concrete values.
