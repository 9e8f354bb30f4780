# workspace-status

Decision logic of the `workspace-status` terminal UI, verified with Verus:
keymap and gates, pickers and palettes, unified-diff parsing, the comment
store, its markdown export, refresh GC and scoped copy, the commit graph paging, the commit-file
forest, the text the chrome paints, and the effect interpreter: which jobs
an effect queues, how a finished job changes the app (stale results, a
superseded right-pane load, repo status or discovery included, are
dropped), and what the event loop waits for.

Layout:

- `src/` — the verified library. Each module states its behaviour in
  `requires` / `ensures` over plain models (`Seq`, strings as `Seq<char>`),
  and the public `lemma_*` proof functions state the laws that hold across
  calls (read-after-write on the comment store, hint rows that fit the
  width, autoload merges that keep what was loaded, sorted file levels, …).
- `app/` — the unverified edges: crossterm events into the library's event
  values, the comment store's JSON file, the clipboard, the monotonic clock,
  environment lookups, the runner that performs the interpreter's git
  jobs, and the event-loop driver around `loop_step`.
- `tests/` — executable tests against the compiled library.
