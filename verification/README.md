# ccelerate

A compile cache for C and C++ builds driven by CMake. The compiler and archiver are
replaced by thin clients that send each command to a server. The server runs CMake's
checks at once, but defers the build of each object file: it keeps only the code of the
source itself (its *local code*, without the global headers), and at the final link it
compiles the deferred objects in chunks of compatible objects, each chunk with its global
headers preprocessed once.

## Layout

- `src/` is the verified library; Verus proves its contracts and laws:
  - `parse_gcc`, `gcc_round_trip`, `gcc_args`, `args_processing`, `parse_ar`, `ar_args`:
    the compiler and archiver command lines, what they build, and their rewrites; reading
    back what was printed gives the same arguments.
  - `local_code`: the local code of a preprocessed translation unit.
  - `compile_object`, `routing`, `config`, `config_lookup`, `link_objects`,
    `header_code`: the decisions of the server.
  - `directives`, `directive_laws`: the preprocessor directives of a file, and that
    reading them again gives them back.
  - `tui_keys`: what a key press does in the terminal UI.
  - `path_utils`, `code_language`, `source_file`, `wire`,
    `command_output`, `task_rows`, `wrapped_binary`, `error`, `text`: the rest.
- `app/` is the server around the library: HTTP, processes, files, the SQLite records
  and the terminal UI.
- `tests/` runs the library on concrete commands.
