# semble_front

The front end of a code-search tool for coding agents, verified with Verus.

- `src/render/` turns search results and dependency graphs into text.
- `src/mcp/` is a Model Context Protocol server: it decides what each incoming
  line leads to, reads the arguments of the tools, and words their answers.
  `laws.rs` and `tool_laws.rs` state what holds of every message and every tool.
- `src/cli.rs` decides what the commands of the program print.
- `src/json.rs`, `src/text.rs`, `src/graph.rs` and `src/types.rs` hold the data
  that the rest works on.
- `app/` is the program around the library: the command line, standard input and
  output, and the calls into the `semble` indexing engine.

The library does no input or output. A `Turn` says what is to be done, and the
program hands the outcome back as plain values.
