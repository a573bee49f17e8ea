# pkgshift

A planner for moving a JavaScript project from one package manager to
another (npm, pnpm, Yarn, Bun, vlt, Deno), and a Bun-to-Deno runtime
migration, with its core verified in Verus.

- `src/` is the verified library: project inspection and its fingerprint,
  package-manager detection, the project model, lockfile graphs and their
  comparison, capability analysis, migration plans, readiness, the runtime
  recipes and runtime plans, the guided-command decisions, the apply,
  verification and rollback decisions, and the sealed store of plans and
  runs. Every public function states what it returns in `ensures`; the
  laws of the library are proof functions named `law_*`.
- `tests/` exercises the library on concrete inputs.
- `app/` is the command line: it walks the repository, reads and writes
  files, runs processes and prints JSON, and leaves every decision to the
  library.
