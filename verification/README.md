# eucalyptus-core

The core scene, asset, plugin and scripting logic of the eucalyptus editor and runtime, written in
Verus: every function in `src/` carries a contract that Verus proves.

- `src/` — the verified library. Label hierarchies and their mirror in a `hecs` world, the
  component registry, custom properties, asset sidecar entries, plugin bundle checks and the
  plugin registry, the JVM scripting plan, scene caches, native error codes, and the small
  decisions around them. Calls into `std::path`, `sha2`, `semver` and `hecs` sit behind a few
  trusted wrappers whose contracts are stated in their doc comments.
- `tests/` — tests of the library on concrete values.
- `app/` — the host code around it: file and archive I/O, dynamic library loading, the RON
  formats (serde copies of the library's types), the asset watcher thread, and the
  floating-point picking helpers.
