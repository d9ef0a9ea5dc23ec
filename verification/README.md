# fls

`fls` selects which projects of a monorepo a Git worktree checks out. Each project is a
top-level directory declared in `fls-projects.toml`; selecting a project also checks out
its Buck2 dependency closure through sparse-checkout rules, and projects that are no longer
needed leave the worktree only when their directories hold nothing that would be lost.

The library under `src/` is verified with Verus:

- `manifest`, `state`: the manifest and the local state, and what their schemas allow.
- `workspace`, `listing`: a worktree with its manifest and state, and how each project stands.
- `planning`, `applying`: planning a change of the selection, and applying it step by step.
- `git`, `buck`, `process`, `environment`, `metadata`, `hooks`: what Git, Buck2 and the
  host report, read as values, and the rules fls writes back.
- `doctor`, `cli`, `output`: the checks of `fls doctor`, the command line and what is printed.
- `rbac`, `panel`, `tunnels`, `node_admin`: the panel's access control, users and tokens,
  tunnels and node administration.
- `text`, `order`, `collections`, `error`: texts, their order, sorted sets and maps of texts,
  and the error type.

`app/` is the program around it: it runs Git, Buck2 and `mise`, reads and writes files,
talks to the terminal, and hands what it read to the library, which decides what to do.
