# lumen

The logic of a small browser, verified with Verus: CSS values, shorthands,
media queries and style sheets; sessions, history, cookies, forms, text
editing, storage and the same-origin policy; and what page scripts can ask of
a page.

- `src/css`: values as written (numbers stay literals, so nothing is rounded),
  declarations, media queries, style sheets.
- `src/browser`: the session of a page and everything it owns.
- `src/scripting`: events, timers, reads, module loading and the bridge between
  scripts and the session.
- `src/text.rs`: the text functions that the others share.
- `tests`: the scenarios, and the laws on concrete values.
- `app`: the shell. It reads and writes files, runs threads, drives the
  JavaScript engine and the CSS tokenizer, and does what is floating point.
  Loading, HTML parsing and layout come from whoever embeds it.

Public proof functions whose names begin with `law_` state what holds of the
library as a whole.
