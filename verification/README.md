# tine_projection

Verified planning and bookkeeping for projecting a synchronised note graph onto plain files.

A page of the graph becomes one Markdown or Org file. The library decides the exact bytes of that
file, which block lies where in them, what may be written over a file that is already there, and
what durable evidence stands before and after the write.

- `src/` is the library. Every function in it has a contract that Verus proves; the outside calls
  that it trusts (`Sha256::digest`, `Uuid::parse_str`, `str::from_utf8`, `String::push` and the
  quoting of a text) are each one small item.
- `app/` is the host side: serialised records, private files below directory handles, and the loops
  that carry the library's runs out. A host brings its own outline engine, receipt codec, engine of
  accepted operations and graph of files.
- `tests/` runs the library. `tests/projection.rs` brings a small outline engine of its own.

## Where things are

| Subject | Modules |
| --- | --- |
| Bytes, texts, digests, identifiers | `bytes`, `text`, `hash`, `ids`, `order` |
| Pages and their outlines | `page`, `forest`, `inject`, `document`, `semantics` |
| Rendering and planning | `render`, `line_ends`, `plan`, `incremental`, `editor`, `intent`, `annotation` |
| Manifests of a batch | `manifest`, `manifest_base`, `manifest_check`, `manifest_set` |
| Carrying projections out | `work_run`, `receiver_run`, `recovery_run`, `turn_run`, `probe_run` |
| The receipt store | `store`, `claim`, `opening`, `attempts`, `evidence`, `authority`, `live`, `catalog`, `summary`, `completion_run` |
| Displaced files | `rounds`, `cleanup_run`, `cleanup_opening` |
| Single files | `files`, `publication`, `barrier`, `names` |
| Errors in words | `messages` |
| Laws | `document_laws`, `anchor_laws`, `listing_law`, `plan_laws`, `manifest_laws`, `manifest_order`, `evidence_laws`, `catalog_laws`, `store_laws`, `recovery_laws`, and the `law_*` functions of the runs |
