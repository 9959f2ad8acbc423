# leaf_core

The verified core of a terminal Markdown viewer's rendering pipeline.

`src/` is a Verus library:

- `toc` — outline normalisation: hiding a lone h1, promoting h2s, keeping
  the displayed levels.
- `text` — styled terminal text as plain values (colors, styles, spans,
  lines), `Line::raw`, line comparison and the stable prefix of two renders.
- `approx` — the approximate renderer for text in progress (headings, code
  fences, inline code, bold).
- `streaming` — the streaming state machine: token accumulation, debounced,
  forced and final renders, dual-phase caching of complete paragraphs, and
  paragraph-break detection.
- `app`, `editor` — popup and editor-picker state.
- `stdin` — accepting a bounded document read from stdin.
- `theme` — which loaded syntax theme to use, with its fallback.
- `chars`, `clock` — string and clock helpers.

`app/` is the Rust around it: the Markdown renderer (leaf's parser with
syntect highlighting), ANSI/plain output, conversions to and from ratatui
types, a streaming session that carries out the state machine's render jobs,
stdin reading, path resolution and clipboard access.
