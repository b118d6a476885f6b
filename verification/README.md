# vault_git

The Git side of a notes vault, as a verified library: which notes changed,
what a commit, pull or push came to, a note's history and diffs, merge and
rebase conflicts, the activity feed and the web address of a note on its
remote's site.

A vault may sit inside a larger repository. Every vault-facing result goes
through one mapping between vault-relative and repository-relative paths
(`workspace.rs`), and only the vault's own notes are reported.

## Layout

- `src/` — the library, verified with Verus. Each function that interprets
  Git takes what Git printed (`CommandOutput`) and returns the result, with a
  contract over spec functions that say exactly what that result is.
  - `text.rs` — character-sequence utilities and their mathematical meaning.
  - `workspace.rs` — the vault's place in its work tree; path mapping.
  - `command.rs` — arguments and outputs of Git invocations.
  - `commit.rs`, `status.rs`, `history.rs`, `pulse.rs`, `conflict.rs`,
    `remote.rs`, `remote_status.rs`, `file_url.rs`, `dates.rs`.
  - Public proof functions named `law_*` (and `lemma_sorted_set_unique`) state
    properties of the library as a whole.
- `tests/` — tests of the library on concrete Git outputs.
- `app/` — the functions that run Git and read the file system, feeding the
  library; the serialisable forms of its results.
