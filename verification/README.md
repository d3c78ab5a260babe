# mountmate

The logic of MountMate, a desktop helper that mounts an SMB share on Windows
and macOS, written in Verus and verified. A few small wrappers around std
(`String::push`, path comparison), `getrandom` and `uuid` are trusted: their
contracts are believed, not proved.

- `src/text.rs`: trimming, ASCII case, search and replace on strings, with
  their specifications.
- `src/profile.rs`: import packages, their validation, profiles and the
  profile store (`upsert_profile`), with laws on the store.
- `src/naming.rs`: credential keys, UNC paths, SMB URLs, percent and
  AppleScript escaping.
- `src/ids.rs`: fresh random profile ids (version-4 UUID text).
- `src/errors.rs`: the error type, redaction of secrets and the explanation
  of mount failures.
- `src/platform/`: mount points and the commands for macOS, Windows and other
  systems.
- `src/diagnostics.rs`, `src/benchmark.rs`: views of profiles, connection
  tests and the parts of the speed test that are not timing.
- `app/`: the Tauri shell (files, credential store, network, processes).
- `tests/`: tests run against the compiled library.
