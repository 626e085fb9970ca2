# algocline-app

The application layer of algocline, a runner for Lua packages of LLM
strategies: installing, listing, linking, testing, checking and repairing
packages, packing and restoring the application directory, running strategies,
and reading their logs.

`src/` is the library. It decides and computes, on plain values, and every item
of it is verified with [Verus](https://github.com/verus-lang/verus).

| Module | What it holds |
| --- | --- |
| `text`, `order`, `name_map`, `paths`, `calendar`, `json` | text, sorting, maps by name, paths, dates, JSON documents |
| `names`, `source`, `search_path`, `session`, `project` | package names and origins, search paths, sessions, project roots |
| `manifest`, `sections`, `profile`, `copy`, `pack`, `unpack`, `archive` | what is installed, and snapshots of the application directory |
| `install`, `list`, `link`, `remove`, `read`, `scaffold`, `testing` | packages |
| `health`, `doctor`, `repair`, `migrate` | what is wrong with packages and projects, and what mends it |
| `env`, `reply`, `pool`, `scenarios`, `logs`, `stats` | runs, their environment, workers, scenarios and logs |

Functions named `law_…` state what holds across functions: what one call undoes,
what every operation keeps, what is never replaced.

Calls into other crates stand behind trusted items, each with a comment that
says what is claimed of the call: `serde_json` and `toml` (documents),
`toml_edit` (writing `alc.toml`), `sha2` (digests), `semver` (versions),
`dotenvy` (environment files), `rand` (session ids).

`app/` is the service around the library: files, processes, Lua and the network.
`tests/` runs the library on concrete values.
