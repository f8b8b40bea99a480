# runx

Runs a command with the developer tools it needs (Node.js, Python, Go, Deno,
Bun, Ruby, Java, Rust, or any tool described by a plugin manifest), each
downloaded once into a cache and provided in an isolated environment.

## Layout

- `src/` is the library, verified with Verus: version parsing and matching,
  tool specifiers and durations, the providers' version lists, download URLs
  and install layouts, the retry policy of upstream requests, the cache
  layout and clean-up plans, config files, plugin manifests, the isolated
  environment, and the decisions of each command. Every function states its
  behaviour in `requires`/`ensures`, and the laws that tie functions together
  are proof functions (`lemma_*`).
- `app/` is the program around it: argument parsing, HTTP, archives, the file
  system, prompts and process execution. It hands the library plain values and
  does what the library decides.
- `tests/` runs the library on concrete inputs.

The calls into `semver`, `sha2`, `dirs` and `std::path` that the library makes stand
behind small trusted wrappers whose contracts say what those functions
document.
