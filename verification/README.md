# tui_preview

A keyboard-driven terminal file previewer whose core is verified with Verus.

- `src/` is the verified library: the browser's state machine (`app`), key
  mapping (`event`), directory listing and ordering (`fs`, `order`), the
  preview cache and its keys (`cache`), the preview handlers and the router
  that picks one (`preview`), what each part of the screen shows (`ui`),
  terminal capabilities and half-block image drawing (`term`), and the text
  helpers they share (`textfmt`). Calls into outside crates (image and
  document decoders, syntax highlighting, hashing, base64) go through small
  trusted wrappers whose contracts say what the crates document. The Word,
  spreadsheet and PDF parsers can panic on malformed files; those calls run
  on a worker thread of their own, and a preview whose parser stopped that
  way reports "handler panicked (malformed file)".
- `app/` is the program around it: command line, logging, the terminal and
  event loop, file-system access, SVG rasterizing and the audio waveform
  (both computed in floating point).
- `tests/` exercise the library with the real outside crates linked.
