# syscity

The decisions of the Syscity gateway and of its evaluation suite, written in
Verus: the functions of `src/` state what they return or change, and that is
proved of their bodies.

- `src/text.rs`, `path.rs`, `strmap.rs`, `json.rs`, `scalar.rs`: texts, paths, maps
  with text keys, JSON values with their canonical form and fingerprint, and
  floating-point settings carried by their bits.
- `src/gateway/`: access checks, configuration with its revisions and diffs,
  commands, the dispatch of messages, the spawning of agents, hot reload, and the
  replies of the HTTP handlers.
- `src/eval/`: task files and suites, standalone runs with their ledger, the root
  cause analysis of failures, badcases with their files, their governance and their
  clusters, and the calibration of the judge.
- `tests/`: the library from outside, with the outside crates linked.
- `app/`: what surrounds the library: files, HTTP, processes, floating point, and
  the loops that carry out what the library decides.

What is not proved is what the outside crates and the standard library return.
Each such call stands behind an item whose comment says what is claimed of it. Of a
random byte and of the current time nothing is claimed at all.
Laws that relate several functions are the public proof functions whose names
start with `law_`.
