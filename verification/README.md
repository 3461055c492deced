# branch_diff_viewer

The backend of a desktop viewer for the differences between two git
branches, as a Verus-verified library and a thin Tauri shell around it.

## Layout

- `src/` — the verified library.
  - `session.rs`: the request/reply vocabulary of the request handlers and
    the read-only property of every git command they ask for.
  - `summary_job.rs`, `file_job.rs`, `repo_job.rs`, `branches.rs`: the
    handlers behind `get_diff_summary`, `get_file_diff`, `validate_repo` /
    `get_repo_fingerprint` and `list_branches`, each a state machine that
    asks for one piece of outside work at a time and is proved against a
    transition function.
  - `summary.rs`, `file_diff.rs`, `repo.rs`, `refs.rs`, `parse.rs`: the
    decisions and parsers those handlers are built from (merge base,
    scopes, submodules, untracked files, size guard, ref normalization,
    `--name-status` / `--numstat` / `--raw` parsing and reconciliation).
  - `roundtrip.rs`: the `-z` output of `--name-status` and `--numstat`
    written out, with the laws that the parsers read it back exactly.
  - `summary_fallback.rs`, `summary_diffs.rs`: whole runs of the summary
    handler against a modelled repository, with three laws: every request
    of a run is read-only; a working-tree scope of a branch other than the
    checked-out one yields the committed summary with one warning more; and
    a summary lists, for the diff operands its request names, the
    repository's own reconciled `--name-status`/`--numstat` diffs, then
    untracked files only in the `unstaged` scope in effect.
  - `file_runs.rs`: whole runs of the file handler, with the size guard
    stated over them.
  - `process.rs`: git output, the error wire format and the decisions of
    the bounded wait for a git child process.
  - `recent.rs`, `settings.rs`: the recent-projects list and UI settings.
  - `text.rs`, `types.rs`: text helpers and the shared data types.
- `app/` — the shell: Tauri commands, spawning git with a timeout, the file
  system, and the serde forms of the library's types.
- `tests/` — tests of the library, driving the handlers with scripted
  replies.
