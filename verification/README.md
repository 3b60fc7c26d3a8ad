# vitro

Sandboxed development environments: each env is a small VM with its own address,
host name, egress rules and a clone of the repo, on this machine or on a server
that is reached over SSH.

- `src/` is the library, in Verus. It decides and computes: which server has an
  env, the address that it gets, the command lines that are run, the messages of
  the control API, the nix text of a VM, the rules of the proxy. Each function
  states in its contract what it returns; the proof functions named `law_*` state
  what holds of several of them together.
- `tests/` runs the library on concrete values.
- `app/` is the `vitro` program. It reads files, runs commands and talks to the
  network, and asks the library what to do at every step.

Paths and file contents are plain strings in the library. A step that only the
machine can take (a start, a delete, an edit of secrets, a deploy, preparing an env,
bringing it up or down) is a pair of a step and what came of it, from which the
library gives the next step.

The library rests on a few facts that are not proved here. They stand in the
contracts of the functions marked `external_body`: how `serde_json` reads and
writes JSON, and what `str::to_lowercase`, `Path::parent` and `Path::strip_prefix`
return; and in that of `String::push`.
