# tree_sitter_cli

The verified core of a tree-sitter command-line front end.

- `src/test_entry.rs`: the tree of corpus tests and the flattened example.
- `src/fuzz.rs`: flattening a test tree into named, filtered examples, with
  the laws of filtering and naming; the settings of a fuzzing run.
- `src/filter.rs`: name filters, compiled and run by the `regex` crate.
- `src/settings.rs`: counts, seed and filters taken from the text of
  environment variables.
- `src/cli.rs`: encodings, shells, the decisions of the `highlight` command
  (rebuilding, the directory that supplies the languages, scopes, which
  language each input gets, the highlighter's settings) and the help palette.
- `app/`: the program: argument parsing, language discovery, reading inputs,
  printing highlighted text (ANSI or HTML, coloured by the configuration
  file's theme, or a built-in one when it names none), completions, logging
  to standard error and the process-wide settings read from the
  environment. Corpus tests chosen by number, LaTeX output, capture checking
  and cancelling a run on an interrupt are not available in it.
