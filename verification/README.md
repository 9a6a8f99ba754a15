# worktrunk

The decisions behind `wt merge` and `wt clean`, written in Verus.

- `src/` is the library. Every task is a run that stands before one thing to be
  asked for: a command, a question, a request. The answer leads to the next one
  or ends the run. Contracts say what is asked for and what each answer leads
  to; the laws (`*_laws.rs`, and beside the functions that they are about) say
  what holds of whole runs.
- `app/` runs the library against a repository. It starts `git` and `gh`, and
  reaches configuration, hooks and the removal of worktrees through the trait
  `Project`.
- `tests/` drives the runs with answers of its own.

What is trusted without proof: the wrappers round `serde_json` in `src/json.rs`
and the one round the standard library's debug format in `src/text.rs`.
