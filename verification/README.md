# jj-hunk

Programmatic hunk selection for [jj](https://github.com/jj-vcs/jj): list the
hunks of a change, pick some of them with a small query language (hunksets)
or a JSON/YAML spec, and split, commit or squash just those.

The library under `src/` is written in Verus; its functions carry contracts
that Verus proves. `app/` is the command-line program around it: argument
parsing, running `jj`, reading and writing files, and (de)serialization.

## Layout

- `src/hunkset/` — hunkset expressions: the lexer, the parser with error
  positions, compiled string patterns, and the evaluator with its set-algebra
  laws; `src/hunkset.rs` holds the evaluator the commands use.
- `src/spec.rs` — selection specs and the reading of hunk selectors and ids.
- `src/diff.rs` — hunks, hunk ids and selections.
- `src/glob.rs` — glob matching on paths.
- `src/commands.rs` — the decisions behind `list`, `select`, `split`,
  `commit` and `squash`: filtering, grouping, text rendering, truncation,
  spec templates and the `jj` invocations.
- `src/semantic.rs`, `src/syntax.rs` — the semantic context of a line
  (enclosing function and scope, annotations, doc comments, imports, depth),
  computed on a tree-sitter syntax tree.
- `src/text.rs` — string helpers shared by the modules.
- `tests/` — tests of the library.
- `app/` — the `jj-hunk` executable.

The line diff that turns two versions of a file into hunks, and applies a
selection of them, is not part of this crate; the commands that need it
report so.
