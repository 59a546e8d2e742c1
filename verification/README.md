# deadbranch

The branch-cleanup logic of `deadbranch`: reading what `git` prints, the
state of the interactive cleanup screen, what each key does there, and what
each screen shows. Every function in `src/` carries a contract. Verus
proves each contract, except those of the few wrappers marked
`#[verifier::external_body]` around `chrono` and std string calls, whose
contracts are trusted and whose doc comments say what they claim.

- `src/text.rs`: character-level text handling (trimming, lines, fields,
  integer parsing, decimal formatting, UTF-8 byte prefixes).
- `src/clock.rs`: instants as second counts, and the calls into `chrono`.
- `src/branch.rs`: `Branch` and `BranchFilter`.
- `src/git.rs`: turning `git` output into branches, the merged set, the
  default branch and error messages.
- `src/order.rs`: sort orders and a stable sort of branch indices.
- `src/tui.rs`: the cleanup state (`App`): filtering, sorting, cursor and
  selection.
- `src/session.rs`: what a key press does in each mode, and the progress of
  the deletions.
- `src/view.rs`: the text, colour and weight of every line on each screen.

`app/` runs `git`, draws with `ratatui` and reads keys; it hands the library
plain values and does what the library decides.
