# Syzygy

The verified core of an RFP and proposal authoring tool: RFP analysis,
compliance matrices and gap analysis, Typst conversion and export, document
pipelines, compilation reports, Ollama requests and replies, project
templates, and the queries of the content library.

## Layout

- `src/` is the library, verified with Verus. Each module states what its
  functions compute over mathematical models (`Seq`, views of the records),
  and states the properties that hold across calls as public proof functions
  (`lemma_*`).
  - `analyzer` extracts requirements, deadlines, critical terms and
    evaluation criteria from the text of an RFP.
  - `compliance` builds compliance matrices, their summaries, gap analyses
    and CSV / Markdown / HTML renderings.
  - `export` converts Typst sources to HTML, Markdown, LaTeX and plain text.
  - `pipeline` orders, validates and runs document pipelines as a sequence of
    decisions around the reads and writes done outside.
  - `compile` turns what the Typst compiler reports into compile results.
  - `ollama` builds requests and prompts and splits streamed replies.
  - `projects` holds the project templates and plans new projects.
  - `storage` builds the content library's queries and the database schema,
    and decides how a project is registered.
  - `text` holds the character-sequence operations the others share.
  - `outside` holds the calls into `regex`, `base64`, `uuid` and `chrono`,
    whose contracts are trusted.
- `tests/` runs the library on concrete inputs.
- `app/` is the unverified shell: file and network I/O, the Typst compiler's
  world, the Ollama HTTP client, file watching, and serializable copies of
  the library's types. It also computes the single-precision percentages (a
  matrix's compliance rate and progress) that the library prints but, having
  no floating point, takes as given text.

## Not included

The database client (SurrealDB) and the Tauri shell are not part of this
build. The content library, settings, project registry and pipeline-template
commands therefore have no executable form here: their queries, schema,
error messages and the registration decision are in `storage`, but nothing
sends them to a database. Pipeline and Ollama streaming report their events
through a callback instead of a Tauri window.
