# gitseer

A single-repository Git state worker. A supervising client starts one process
per repository and talks to it in JSON-RPC 2.0 over stdio: it asks for
snapshots of the repository (identity, HEAD, upstream, paths, operation,
remotes, branches, tags, stashes, worktrees, submodules), subscribes, and then
receives versioned deltas as the repository changes on disk.

The library under `src/` is verified with Verus:

- `plan`, `classify`, `watch`, `roots`: which snapshot domains a file-system
  event makes stale, how plans combine, and which directories are watched.
- `model`, `delta`: the snapshot model, the delta between two snapshots and
  the patch that brings a client's copy up to date.
- `read`, `sections`, `heads`, `snapshot`: turning what libgit2 and the
  head files report into snapshot sections, and refreshing only the stale ones.
- `json`, `protocol`: request checking, dispatch, responses, notifications and
  the version counter of a subscription.
- `serve`, `watchset`: what a serving worker does with each request line,
  watcher report and polling interval, and how the set of watched roots
  follows the repository.
- `git`, `sys`: the calls into libgit2 and the standard library. Each is
  documented with what it calls; where the result is a function of the
  arguments it is named or stated, and where it depends on what is on disk
  only what holds of every outcome is claimed, often nothing. The merge
  message and a worktree's lock reason are read as bytes and converted
  lossily; the operation head files are read as bytes and parsed by `heads`.

`app/` holds the command line, the stdio loop, the notify watcher and the
serialisable forms of the library's values. `tests/` exercises the library
against real repositories built with libgit2.
