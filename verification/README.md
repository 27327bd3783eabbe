# minigrep

A grep-like line search with a few companion data structures, written in
Verus. The library in `src/` is verified; `app/` is the command-line program
and the thread, channel, async and `unsafe` demonstrations that run around it.

- `config`: building a search configuration from the command line and the
  `IGNORE_CASE` variable, and the search itself (lines that contain the query,
  optionally ignoring case, trimmed of surrounding white space).
- `text`: the character-level pieces of the search, specified over `Seq<char>`:
  line splitting as `str::lines` does it, Unicode white space and trimming,
  substring search.
- `cacher`: a memoising wrapper around a function; the first result sticks.
- `point`: a movable point and a lazily filled string holder.
- `node`, `gadget`: reference-counted trees and owner/gadget pairs linked by
  weak references.
- `apperror`: an application error built from I/O and integer-parse errors.
- `closures`, `lookup`, `slices`: a function factory, a map lookup that
  inserts a default, and a slice split into two mutable halves.
- `http`: the status line the small web server answers a request with.
