# kb_port

The logic of a small LuCI web-admin toolset, verified with Verus.

- `kb-port` reads a LuCI JavaScript form description (`s.tab(..)`,
  `s.taboption(..)`, `o.value(..)`, `o.depends(..)`, ...) and generates an
  HTML template and a Rust module that reads and writes the settings via `uci`.
- The process list of the admin pages is built from `/proc/<pid>/status` and
  `/proc/<pid>/cmdline`, ordered by pid.
- The SQM settings page reads its settings from `uci get` and writes them with
  `uci set`.

Layout:

- `src/text.rs`, `src/num.rs`: text and decimal-number operations with their
  specifications (trimming, searching, lines, parsing and printing numbers).
- `src/form.rs`: reading a form description; the reader is a state machine
  over the lines, specified by `js_step`.
- `src/html.rs`, `src/rustgen.rs`: the generated HTML page and Rust module,
  specified as concatenations of their parts.
- `src/procs.rs`: one process entry from its files, the stable sort by pid,
  and the guard on killing a process.
- `src/sqm.rs`: the SQM settings, their `uci` keys and defaults.
- `app/`: the command line, file and process I/O, and the serde/askama copies
  of the library types.
