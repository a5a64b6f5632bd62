# canon_core

Canonicalization tooling for structured documentation corpora: a corpus is
audited against a structure template, the drift becomes an anchor plan and a
frontmatter migration plan, judgment cases become numbered gap-report files,
and the `canon` command ties it together.

The library in `src/` is written in Verus and proved against its contracts.
It never touches the filesystem itself: commands work on a `FileTree`
snapshot and return the writes, clones and anchor runs they need, which the
program in `app/` carries out.

- `src/text.rs`, `src/files.rs`: strings, `/`-separated paths and the snapshot.
- `src/json.rs`, `src/yaml.rs`, `src/toml_value.rs`: the documents the
  library reads, parsed by `serde_json`, `serde_yaml` and `toml`.
- `src/template/`: manifests, three-tier resolution, validation.
- `src/audit/`: folder shape, frontmatter against a JSON schema, invariants.
- `src/plan/`: structural and frontmatter plans, judgment cases. Folder IDs
  come from `[[categories]]` in the template's `folder-rules.toml` and, for
  the engine class named by the `engine_class` frontmatter field of
  `<corpus>/01-identity/_INDEX.md`, from entries such as
  `[[engine_class_extensions]]` with `engine_class = "boundary"` and
  `folders = ["15-providers"]`.
- `src/gap_report/`: `CANON-NNN-<slug>.md` gap files.
- `src/orchestrator/`: the align pipeline as a state machine; after
  `anchor apply` it writes an `_INDEX.md` stub into every numbered folder
  that lacks one.
- `src/stub/`: the `_INDEX.md` stubs: frontmatter, a table of contents of
  the folder's `.md` files, and a marker for the summary still to write.
- `src/cli/`: argument parsing (`canon`, `--help`/`-h` and `--version`/`-V`)
  and the `audit`, `align` and `template` commands.
- `src/laws.rs`: properties that span several functions.
- `tests/`: the test suite, on in-memory snapshots.
- `app/main.rs`: the `canon` program.
