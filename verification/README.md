# git-serve

Serves the files, trees and history of a git repository over HTTP. The repository is a bare mirror
in a cache dir, which a background worker keeps in step with its upstream.

`src/` is the library, verified with [Verus](https://github.com/verus-lang/verus). It reads no
files, starts no processes and knows no clock: what it decides, it decides from values that it is
handed.

- `api` says what requests ask for and what they are answered.
- `repo`, `tree` and `log` make refs, listings, file lookups and histories out of what was read.
- `mirror`, `status`, `sync`, `git`, `process` and `clear` keep the mirror: when to sync, which git
  commands to run and what comes of them.
- `url` and `config` check where the repository comes from.
- `decode` hands bytes to `gix`. It, `url`, `mirror`, `process` and `api` hold the few functions
  whose contracts are taken on trust, since they call other crates or parts of std without a
  specification.

Where work alternates between decisions and reading, the library offers a value that says what it
needs next (`need`) and goes on with what came of it (`on_...`). The laws next to these types say
what the whole comes to, whatever the answers are.

`Cargo.toml` names `kstring`, which `gix` brings along, only to hold it at a version that builds
with the Rust release that Verus uses.

`app/` is the program around it: routes, processes, the file system and the reading of the
repository with `gix`. Its configuration comes from `GIT_SERVE_REPO_URL`, `GIT_SERVE_CACHE_DIR`,
`GIT_SERVE_BIND`, `GIT_SERVE_TOKEN` and `GIT_SERVE_TOKEN_USER`.
