# traceview views

The HTML views of a local trace viewer for AI agents, written in Verus with
their behaviour stated in contracts and proved.

- `src/models.rs` — sessions, spans and span metadata, with their models.
- `src/markup.rs` — decimal numerals, HTML escaping (through maud) and the
  `Markup` type of rendered HTML.
- `src/numfmt.rs` — token counts and durations, shown as a binary64 division
  followed by fixed-decimal formatting would show them, computed exactly in
  integers.
- `src/timefmt.rs` — nanosecond timestamps shown as UTC date and time
  (through chrono).
- `src/views/layout.rs` — the page layout.
- `src/views/trace.rs` — conversation turns, token summary, span and session
  views, with the laws of the grouping into turns.
- `src/views/error_flag.rs` — the proof that a message span's markup carries
  exactly one `data-has-error` value, its own.
- `app/lib.rs` — maud rendering of the library's markup and span metadata
  read from stored JSON.
