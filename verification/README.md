# dayz-community-hub-core

The verified core of a DayZ launcher: the server list and its lookups, mod
manifests, installs and updates, launch arguments and options, `.dzch`
connection links, the steamcmd progress monitor, the terminal interface's
screens and decisions, profile settings and history, the settings bundle,
ping scans, the news feed, and the self-update: the package's signature
check and the executable taken out of it.

- `src/` — the library, written with Verus; every function carries a
  contract and is proved against it. Calls into `regex`, `roxmltree`,
  `urlencoding`, `base64`, `minisign-verify`, `zip` and a few `std` functions go
  through small trusted wrappers whose contracts state what those crates
  document.
- `tests/` — ordinary Rust tests of the library on concrete values.
- `app/` — a small command-line program around the library: it reads files
  and the terminal, runs steamcmd, and prints what the library decides.
