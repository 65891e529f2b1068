# grassfeed

The logic of a desktop feed reader, verified with Verus: reading feeds into messages,
the state of the subscription tree and of the message list, moving subscriptions in
the tree, the status bar, keyboard focus, icon checks, and the text rules around them.

- `src/` — the verified library. Calls into outside crates (feed parsing, URL and HTML
  parsing, compression, image probing, HTTP) go through small trusted wrappers whose
  contracts name what the crate computes.
- `tests/` — tests of the library on concrete values.
- `app/` — the program around it: command-line options, folders, the language, and a
  headless reading of the feeds named on the command line.
