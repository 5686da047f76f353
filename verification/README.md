# openedit_ui

The editor-side logic of the OpenEdit text editor, written in Verus: every
executable function in `src/` is verified by Verus, and the public ones
carry contracts.

- `src/` — the verified library: macro recording and the macro script
  format, translations, the hex editor, Go to File / Go to Symbol / the
  command palette, git line diffs and blame, the built-in plugins (with the
  civil-calendar conversion of timestamps), breadcrumbs and the function
  list, word completion, bracket matching and coloring, the markdown preview's
  block structure, the language-server client (JSON-RPC framing, response
  parsing, client state), the diff view's rows, key bindings and window
  shortcuts, the search of Find in Files, and the editor's row geometry.
  Calls into `regex`, `glob`, `pulldown-cmark` and a few `std` functions stand behind small
  trusted wrappers whose contracts are documented next to them.
- `tests/` — tests of the library on concrete values.
- `app/` — the unverified side that touches the outside world: the
  configuration and macro files, the git repository, directory walks, the
  language-server processes, and view states that hold pixel positions.
