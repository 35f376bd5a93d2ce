# edmdata

A library for aggregating and analysing data about Early Day Motions of the
UK Parliament: it checks and stores records from the Parliament services,
builds the database queries that collect statistics about the motions and
their signatures, and draws the statistics as SVG graphs. The library is
written in Verus, and every function in `src/` carries a contract that Verus
proves.

## Layout

- `src/api/` — requests to the motions, members and statutory instrument
  services (their addresses and query strings), the records they return,
  and the checks a record must pass before it is stored.
- `src/data/` — the records as the dataset stores them, built from the
  published ones.
- `src/bson_model.rs`, `src/query.rs`, `src/report.rs` — a model of BSON
  values, the aggregation pipeline stages of the statistics, and the
  report that ranks motions by them.
- `src/task.rs` — the decisions of the refresh and normalisation tasks:
  which statutory instrument a motion prays against, which records to
  fetch again, what each database update holds.
- `src/svg.rs`, `src/axes.rs`, `src/chart.rs`, `src/element.rs` — line, bar
  and stacked graphs, their axes and labels, and a model of SVG elements.
- `src/keyed.rs`, `src/text.rs` — sorting and deduplication by key, and text
  helpers (decimal text, parsing, searching).
- `app/` — the program around the library: database and network access,
  serialisation, and writing the SVG and PNG files.
- `tests/` — tests of the library on concrete values.

The public proof functions whose names start with `law_` state properties
that relate several functions of the library.
