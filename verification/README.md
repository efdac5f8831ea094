# glsl_validator

A GLSL language service library verified with Verus: symbol scanning,
completion, signature help, hover, definitions, include resolution, version
headers, formatting and compiler-output parsing live in `src/` with their
contracts and laws (`src/laws.rs`). `app/` holds the language-server loop,
process spawning, file access and JSON handling around it.

Columns taken from and given to the editor are UTF-8 byte offsets within a
line, except where a function states otherwise.

The original project also ships a Zed editor extension (a separate WebAssembly
crate built on `zed_extension_api`) that locates or downloads the server and
its tools. It is not part of this library: every one of its functions works
through the Zed host API (worktree lookups, downloads, file-system checks),
which is neither a dependency here nor buildable outside Zed.
