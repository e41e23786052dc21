# fak

`fak` corrects a mistyped shell command with a language model, shows the change
and runs the corrected command once the user accepts it.

This crate holds the text processing behind it, specified and proved with Verus:

- `src/text.rs` — characters, trimming, searching, line splitting, UTF-8 lengths;
- `src/history.rs` — picking the command to correct from the command line or the
  shell history, skipping calls of the alias itself;
- `src/shell.rs` — the shell hook (`fak --alias`), the shell in use, the quoted
  program path;
- `src/provider.rs` — choosing the model provider, its settings, and taking the
  command out of a remote model's reply;
- `src/local.rs` — the embedded model's prompt, batch layout, generation state and
  the cleaning of its answer;
- `src/cerebras.rs` — the request messages and reply reading of the Cerebras
  service;
- `src/diff.rs` — the coloured character diff of the original and corrected command.

`app/` is the program around it: command-line parsing, environment variables,
HTTP, the model runtimes and the terminal.
