# prime_accelerator

A profiler and native-code accelerator for Python and Node.js programs,
written as a Verus library with a thin command-line program around it.

- `src/` — the verified library:
  - `lang_detect` — which language a command runs;
  - `plugins::node_pattern` — the Node.js pattern table, the source window
    around a hot line, regex matching, the category order of the findings,
    and `file://` URL decoding;
  - `plugins::benchmark`, `plugins::node_benchmark` — benchmark templates,
    generated scripts, reading their `KEY=value` output, the scaling plan;
  - `plugins::python`, `plugins::node`, `plugins::ast_matcher` — the
    decisions of the language plugins;
  - `report`, `profiler`, `config`, `patterns` — report rules, command
    lines, configuration defaults and the pattern catalogue;
  - `fast_ops`, `fast_ops_node` — the native fast operations, with
    `parallel` running their data-parallel loops on `rayon`;
  - `regex_engine`, `text`, `script_output` — regex matching, character-level
    text helpers, decimal numbers and script output.
- `app/` — the `accel` program: argument parsing, process spawning and
  sampling, files, JSON and TOML, terminal output, the floating-point parts
  of the report, and the PyO3 and napi bindings of the fast operations.
- `tests/` — tests of the library on concrete values.
