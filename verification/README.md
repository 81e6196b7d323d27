# libra

The decisions behind five commands of a version control system that keeps Git's object model:
`bisect`, `clone`, `commit`, `config` and `merge`. Everything that can be computed from plain values
is in the library and proved with Verus; everything that reads or writes a disk, a database, a network
or a terminal is around it.

## Layout

- `src/` is the verified library.
  - `text`, `paths`, `hexadecimal`, `object`, `tree`, `branch`, `error`: what the commands share.
  - `bisect`: the walk over the history, the session, its reports, and how fast a search narrows.
  - `commit`: the draft of a commit, the objects it writes, and the course that it takes.
  - `clone`: cloud sources, restore plans, and the course of a clone with what a failure removes.
  - `config`: scopes, reading, listing, writing and importing values, and what is hidden of secrets.
  - `merge`: content and tree merges, renames, conflicts, octopus merges, and the order of writes.
- `app/` is the program around it: arguments, output, and the loops that carry out what the library
  decides. It reaches the repository, the vault, remotes and the cloud through the traits of
  `app/store.rs`.
- `tests/` runs the library on concrete values.

## Reading the contracts

A function's `ensures` says what it returns for every input, over views of its arguments: texts are
sequences of characters, paths are sequences of components, trees are maps from paths to entries,
histories are lists of commits, each with the names of its parents. Errors are part of that: each is
stated with the inputs on which it comes. The functions named `law_` state what holds across several
functions.

Where a crate does the work (`git-internal`, `diffy`, `url`, `hex`, `regex`), one small function makes
the call, and its doc comment says what is believed of it.
