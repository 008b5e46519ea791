# upm

A universal package manager library for Linux, verified with Verus.

`src/` holds the logic, each function with a contract that Verus proves:

- `database_manager`, `index` — the record of installed packages and of the
  files each one owns, and the case-insensitive index of installed packages.
- `graph`, `priority`, `virtual_pkg`, `conflict`, `plan` — dependency graphs
  and installation orders, the preference among package providers, names
  that packages provide, conflicts with what is installed, installation plans.
- `backend`, `apt` — the trait a package format implements, the registry of
  backends, and what the APT backend makes of the output of `apt`, `dpkg`
  and friends.
- `transaction`, `lock`, `operations` — transactions and how they are rolled
  back, file locks, and the operations that are running.
- `package_manager`, `database`, `repository`, `installer`, `ostree`,
  `config`, `progress`, `recovery`, `coordinator`, `types`, `errors` — the
  decisions of package requests, the checks made before the database and
  package files are touched, repositories, and the shared types.
- `text` — strings as character sequences: trimming, splitting, parsing and
  printing numbers.
- `sys` — the clock, process identity, identifiers and paths, each with what
  can be said of it.
- `laws` — what holds across operations: reads after writes, removals, the
  order of providers, the order in which a rollback undoes steps.

Several parts of the package manager are given here by their interfaces
alone: the dependency graph, provider priorities, conflicts, virtual
packages, the backend registry, the record of installed packages
(`DatabaseManager`), the installer and the OSTree snapshots. For these the
library fixes a meaning of its own and states it in the contracts; for
instance `DatabaseManager` keeps each package under its name, refuses a name
that is already installed, and lets a file have at most one owner, which
must be installed.

`app/` runs the commands, talks to SQLite, reads and writes files and locks,
and hands what it found to the library. `tests/` exercises the library.
