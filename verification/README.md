# muxy

The decision logic of the Muxy window, verified with Verus: what the omnibox lists and how
it ranks a query, what the status bar, title bar and tab strip show, how the Composer picks
its target panes, keeps its attachments and talks to its draft store, how terminal
indicators behave, and how the worktree and search-location settings are read and stored.

- `src/` is the verified library. Each public function states its result in `ensures`; the
  properties that span several calls are public proof functions (`lemma_*`).
- `tests/` runs the library on concrete values.
- `app/` is the glue around it: folding search text, reading the file system, and running
  the exchanges with the draft store and the terminal panes that the library decides step
  by step.
