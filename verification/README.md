# xphoto

The core of a local-first photo library service, written in Verus: every
function under `src/` carries a `requires`/`ensures` contract that Verus
proves, and the properties that span several functions are stated and
proved as public proof functions (`law_*`).

## Layout

- `src/` — the verified library
  - `text`, `paths`, `calendar`, `quantity`: text, path, date and
    size/duration handling with exact models of the standard library
    behaviour they follow
  - `config`: defaults, environment overrides and path resolution of the
    service configuration
  - `album_rules`, `auto_album`, `album_cover`: albums read from
    directory names, the album a scanned photo joins, and album covers
  - `models`, `digest`, `json`: identifiers (SHA-256 digests) and small
    JSON reads
  - `storage`, `ordering`, `scan`, `scan_job`, `exif_reader`: what a scan
    selects, collects, counts, stores and soft-deletes, and the state
    machine a scan job's runner follows
  - `tasks`, `api`, `boot`: task control (cancel, retry, reconcile,
    health), request checks and query filters, start-up values
  - `testdata`, `glyph`, `exif_writer`: the sample-library generator: trip
    plans, marker drawing and the EXIF block it writes into JPEG files
- `app/` — the service and the generator around the library: HTTP
  handlers, database access, file system, logging, and the floating-point
  parts of the generator
- `tests/` — tests of the library on concrete values

Run under the name `testdata_builder`, the program in `app/` writes a
sample photo library; under any other name it serves the HTTP interface.
