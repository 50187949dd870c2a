# shellcore

The verified core of a small shell, written in Verus.

- `src/` — the library: builtins and how a name selects one (`builtin`),
  commands and what running one does (`command`, `action`, `sink`), the
  shell's state (`shell`, `completion`, `variable`, with the name map in
  `table`), text helpers (`text`), and properties that hold for every input
  (`laws`).
- `app/` — the part that touches the process: writers, the working
  directory, `PATH` search and starting programs; `main` runs the command
  given on its command line.
- `tests/` — tests of the library on concrete inputs.
